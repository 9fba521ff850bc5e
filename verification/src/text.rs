//! Character-level helpers: whitespace tokenisation, prefix tests and
//! the case mappings used by the filter language.

use vstd::prelude::*;

verus! {

/// Unicode `White_Space` property (PropList.txt), which is what
/// `char::is_whitespace` and `str::split_whitespace` use.
pub open spec fn is_ws(c: char) -> bool {
    ||| ('\u{9}' <= c && c <= '\u{D}')
    ||| c == ' '
    ||| c == '\u{85}'
    ||| c == '\u{A0}'
    ||| c == '\u{1680}'
    ||| ('\u{2000}' <= c && c <= '\u{200A}')
    ||| c == '\u{2028}'
    ||| c == '\u{2029}'
    ||| c == '\u{202F}'
    ||| c == '\u{205F}'
    ||| c == '\u{3000}'
}

/// Whether `c` is a Unicode white-space character.
pub fn is_whitespace(c: char) -> (r: bool)
    ensures
        r == is_ws(c),
{
    ('\u{9}' <= c && c <= '\u{D}') || c == ' ' || c == '\u{85}' || c == '\u{A0}' || c
        == '\u{1680}' || ('\u{2000}' <= c && c <= '\u{200A}') || c == '\u{2028}' || c
        == '\u{2029}' || c == '\u{202F}' || c == '\u{205F}' || c == '\u{3000}'
}

/// The token under construction, emitted only when it is not empty.
pub open spec fn flush(cur: Seq<char>) -> Seq<Seq<char>> {
    if cur.len() == 0 {
        Seq::empty()
    } else {
        seq![cur]
    }
}

/// Tokens of `s` when the characters already read form `cur`.
pub open spec fn tokens_from(s: Seq<char>, cur: Seq<char>) -> Seq<Seq<char>>
    decreases s.len(),
{
    if s.len() == 0 {
        flush(cur)
    } else if is_ws(s[0]) {
        flush(cur) + tokens_from(s.drop_first(), Seq::empty())
    } else {
        tokens_from(s.drop_first(), cur.push(s[0]))
    }
}

/// The maximal runs of non-white-space characters of `s`, in order:
/// what `str::split_whitespace` yields.
pub open spec fn tokens(s: Seq<char>) -> Seq<Seq<char>> {
    tokens_from(s, Seq::empty())
}

/// The characters of each string of `v`.
pub open spec fn strs(v: Seq<String>) -> Seq<Seq<char>> {
    v.map_values(|x: String| x@)
}

/// `String::push`: appends one character.
#[verifier::external_body]
pub(crate) fn push_char(s: &mut String, c: char)
    ensures
        final(s)@ == old(s)@.push(c),
{
    s.push(c)
}

/// Splits `s` at white space, as `str::split_whitespace` does.
pub fn split_tokens(s: &str) -> (r: Vec<String>)
    ensures
        strs(r@) == tokens(s@),
{
    let mut out: Vec<String> = Vec::new();
    let mut cur = String::new();
    assert(s@.skip(0) =~= s@);
    assert(strs(out@) =~= Seq::<Seq<char>>::empty());
    for c in it: s.chars()
        invariant
            it.seq() == s@,
            strs(out@) + tokens_from(s@.skip(it.index() as int), cur@) == tokens(s@),
    {
        let ghost i = it.index() as int;
        let ghost rest = s@.skip(i);
        let ghost before = strs(out@);
        let ghost cur0 = cur@;
        assert(rest[0] == c);
        assert(rest.drop_first() =~= s@.skip(i + 1));
        if is_whitespace(c) {
            assert(tokens_from(rest, cur0) == flush(cur0) + tokens_from(s@.skip(i + 1), Seq::empty()));
            if !cur.as_str().is_empty() {
                let t = cur;
                out.push(t);
                assert(strs(out@) =~= before + seq![cur0]);
                cur = String::new();
                assert(before + (seq![cur0] + tokens_from(s@.skip(i + 1), Seq::empty())) =~= strs(out@) + tokens_from(s@.skip(i + 1), cur@));
            } else {
                assert(flush(cur0) =~= Seq::<Seq<char>>::empty());
                assert(cur@ =~= Seq::<char>::empty());
                assert(Seq::<Seq<char>>::empty() + tokens_from(s@.skip(i + 1), Seq::empty()) =~= tokens_from(s@.skip(i + 1), Seq::empty()));
            }
        } else {
            push_char(&mut cur, c);
            assert(tokens_from(rest, cur0) == tokens_from(s@.skip(i + 1), cur@));
        }
    }
    assert(s@.skip(s@.len() as int) =~= Seq::<char>::empty());
    if !cur.as_str().is_empty() {
        let ghost before = strs(out@);
        let t = cur;
        out.push(t);
        assert(strs(out@) =~= before + seq![t@]);
    }
    proof {
        assert(strs(out@) == tokens(s@));
    }
    out
}

/// The characters of `s`, in order.
pub fn chars_of(s: &str) -> (r: Vec<char>)
    ensures
        r@ == s@,
{
    let mut out: Vec<char> = Vec::new();
    for c in it: s.chars()
        invariant
            it.seq() == s@,
            out@ == s@.take(it.index() as int),
    {
        let ghost i = it.index() as int;
        out.push(c);
        assert(out@ =~= s@.take(i + 1));
    }
    assert(out@ =~= s@);
    out
}

/// The string made of `v[from..to]`.
pub fn string_of(v: &Vec<char>, from: usize, to: usize) -> (r: String)
    requires
        from <= to <= v@.len(),
    ensures
        r@ == v@.subrange(from as int, to as int),
{
    let mut out = String::new();
    let mut i = from;
    while i < to
        invariant
            from <= i <= to <= v@.len(),
            out@ == v@.subrange(from as int, i as int),
        decreases to - i,
    {
        push_char(&mut out, v[i]);
        assert(out@ =~= v@.subrange(from as int, i + 1));
        i += 1;
    }
    out
}

/// `a` followed by `b`, as `format!("{a}{b}")`.
pub fn concat(a: &str, b: &str) -> (r: String)
    ensures
        r@ == a@ + b@,
{
    let mut out = a.to_string();
    assert(out@ == a@);
    for c in it: b.chars()
        invariant
            it.seq() == b@,
            out@ == a@ + b@.take(it.index() as int),
    {
        let ghost i = it.index() as int;
        push_char(&mut out, c);
        assert(out@ =~= a@ + b@.take(i + 1));
    }
    assert(b@.take(b@.len() as int) =~= b@);
    out
}

/// `c` with ASCII upper-case letters mapped to lower case, as
/// `char::to_ascii_lowercase`.
pub open spec fn ascii_lower_char(c: char) -> char {
    if 'A' <= c && c <= 'Z' {
        ((c as int) + 32) as char
    } else {
        c
    }
}

/// `s` with ASCII upper-case letters mapped to lower case, as
/// `str::to_ascii_lowercase`.
pub open spec fn ascii_lower(s: Seq<char>) -> Seq<char> {
    s.map_values(|c: char| ascii_lower_char(c))
}

pub fn to_ascii_lowercase(s: &str) -> (r: String)
    ensures
        r@ == ascii_lower(s@),
{
    let mut out = String::new();
    for c in it: s.chars()
        invariant
            it.seq() == s@,
            out@ == ascii_lower(s@.take(it.index() as int)),
    {
        let ghost i = it.index() as int;
        let d = if 'A' <= c && c <= 'Z' {
            let b: u8 = ((c as u32) + 32) as u8;
            b as char
        } else {
            c
        };
        assert(d == ascii_lower_char(c));
        push_char(&mut out, d);
        assert(out@ =~= ascii_lower(s@.take(i + 1)));
    }
    assert(s@.take(s@.len() as int) =~= s@);
    out
}

/// The ASCII digit for `d` (below ten).
pub open spec fn digit_char(d: nat) -> char {
    (d + 48) as char
}

/// The decimal numeral of `n`, as `format!("{n}")` writes it.
pub open spec fn decimal(n: nat) -> Seq<char>
    decreases n,
{
    if n < 10 {
        seq![digit_char(n)]
    } else {
        decimal(n / 10) + seq![digit_char(n % 10)]
    }
}

/// Appends the decimal numeral of `n` to `out`.
pub fn push_decimal(out: &mut String, n: u64)
    ensures
        final(out)@ == old(out)@ + decimal(n as nat),
    decreases n,
{
    if n >= 10 {
        push_decimal(out, n / 10);
    }
    let d: u8 = (n % 10) as u8;
    let b: u8 = d + 48;
    let c = b as char;
    assert(c == digit_char((n % 10) as nat));
    push_char(out, c);
}

/// The decimal numeral of `n`.
pub fn decimal_string(n: u64) -> (r: String)
    ensures
        r@ == decimal(n as nat),
{
    let mut out = String::new();
    push_decimal(&mut out, n);
    assert(out@ =~= decimal(n as nat));
    out
}

/// Whether `a` and `b` hold the same characters.
pub fn str_eq(a: &str, b: &str) -> (r: bool)
    ensures
        r == (a@ == b@),
{
    let x = chars_of(a);
    same_chars(&x, b)
}

/// Whether `p` is a prefix of `s`.
pub open spec fn is_prefix(p: Seq<char>, s: Seq<char>) -> bool {
    p.len() <= s.len() && s.subrange(0, p.len() as int) == p
}

/// Whether the characters `v` begin with those of `p`.
pub fn starts_with(v: &Vec<char>, p: &str) -> (r: bool)
    ensures
        r == is_prefix(p@, v@),
{
    let pc = chars_of(p);
    if pc.len() > v.len() {
        return false;
    }
    let mut i: usize = 0;
    while i < pc.len()
        invariant
            pc@ == p@,
            pc@.len() <= v@.len(),
            0 <= i <= pc@.len(),
            forall|j: int| 0 <= j < i ==> v@[j] == pc@[j],
        decreases pc.len() - i,
    {
        if v[i] != pc[i] {
            assert(v@.subrange(0, pc@.len() as int)[i as int] != p@[i as int]);
            return false;
        }
        i += 1;
    }
    assert(v@.subrange(0, pc@.len() as int) =~= p@);
    true
}

/// Whether the characters `v` are exactly those of `p`.
pub fn same_chars(v: &Vec<char>, p: &str) -> (r: bool)
    ensures
        r == (v@ == p@),
{
    let b = starts_with(v, p);
    let n = p.unicode_len();
    if b && n == v.len() {
        assert(v@ =~= v@.subrange(0, n as int));
        true
    } else {
        proof {
            if v@ == p@ {
                assert(v@.subrange(0, v@.len() as int) =~= v@);
            }
        }
        false
    }
}

/// `parts` separated by single spaces, as `[..].join(" ")` builds it.
pub open spec fn join_sp(parts: Seq<Seq<char>>) -> Seq<char>
    decreases parts.len(),
{
    if parts.len() == 0 {
        Seq::empty()
    } else if parts.len() == 1 {
        parts[0]
    } else {
        join_sp(parts.drop_last()) + seq![' '] + parts.last()
    }
}

/// Joins `parts` with single spaces.
pub fn join_space(parts: &Vec<String>) -> (r: String)
    ensures
        r@ == join_sp(strs(parts@)),
{
    let mut out = String::new();
    let mut i: usize = 0;
    while i < parts.len()
        invariant
            0 <= i <= parts@.len(),
            out@ == join_sp(strs(parts@).take(i as int)),
        decreases parts.len() - i,
    {
        let ghost before = strs(parts@).take(i as int);
        assert(strs(parts@).take(i + 1).drop_last() =~= before);
        if i > 0 {
            push_char(&mut out, ' ');
        }
        out.append(parts[i].as_str());
        assert(strs(parts@).take(i + 1).last() == parts@[i as int]@);
        if i == 0 {
            assert(out@ =~= join_sp(strs(parts@).take(i + 1)));
        } else {
            assert(out@ =~= join_sp(strs(parts@).take(i + 1)));
        }
        i += 1;
    }
    assert(strs(parts@).take(parts@.len() as int) =~= strs(parts@));
    out
}

/// `parts` with `sep` between each two, as `slice::join` does.
pub open spec fn joined(parts: Seq<Seq<char>>, sep: Seq<char>) -> Seq<char>
    decreases parts.len(),
{
    if parts.len() == 0 {
        Seq::empty()
    } else if parts.len() == 1 {
        parts[0]
    } else {
        joined(parts.drop_last(), sep) + sep + parts.last()
    }
}

/// Joins `parts` with `sep`.
pub fn join_with(parts: &Vec<String>, sep: &str) -> (r: String)
    ensures
        r@ == joined(strs(parts@), sep@),
{
    let mut out = String::new();
    let mut i: usize = 0;
    while i < parts.len()
        invariant
            0 <= i <= parts@.len(),
            out@ == joined(strs(parts@).take(i as int), sep@),
        decreases parts.len() - i,
    {
        let ghost before = strs(parts@).take(i as int);
        assert(strs(parts@).take(i + 1).drop_last() =~= before);
        if i > 0 {
            out.append(sep);
        }
        out.append(parts[i].as_str());
        assert(strs(parts@).take(i + 1).last() == parts@[i as int]@);
        assert(out@ =~= joined(strs(parts@).take(i + 1), sep@));
        i += 1;
    }
    assert(strs(parts@).take(parts@.len() as int) =~= strs(parts@));
    out
}

/// Whether `n` occurs as a contiguous run inside `h`.
pub open spec fn contains_seq(h: Seq<char>, n: Seq<char>) -> bool {
    exists|i: int| 0 <= i && i + n.len() <= h.len() && #[trigger] h.subrange(i, i + n.len()) == n
}

/// Substring search, as `str::contains` with a string pattern.
pub fn contains(h: &Vec<char>, n: &Vec<char>) -> (r: bool)
    ensures
        r == contains_seq(h@, n@),
{
    if n.len() > h.len() {
        return false;
    }
    if n.len() == 0 {
        assert(h@.subrange(0int, 0int + n@.len()) =~= n@);
        return true;
    }
    let last = h.len() - n.len();
    let mut i: usize = 0;
    while i <= last
        invariant
            0 < n@.len() <= h@.len(),
            last == h@.len() - n@.len(),
            0 <= i <= last + 1,
            forall|k: int| 0 <= k < i ==> #[trigger] h@.subrange(k, k + n@.len()) != n@,
        decreases last + 1 - i,
    {
        let mut j: usize = 0;
        let mut ok = true;
        while j < n.len()
            invariant
                0 < n@.len() <= h@.len(),
                last == h@.len() - n@.len(),
                0 <= i <= last,
                0 <= j <= n@.len(),
                ok ==> forall|m: int| 0 <= m < j ==> h@[i + m] == n@[m],
                !ok ==> h@.subrange(i as int, i + n@.len()) != n@,
            decreases n.len() - j,
        {
            assert(i + j < h.len());
            if ok && h[i + j] != n[j] {
                assert(h@.subrange(i as int, i + n@.len())[j as int] != n@[j as int]);
                ok = false;
            }
            j += 1;
        }
        if ok {
            assert(h@.subrange(i as int, i + n@.len()) =~= n@);
            return true;
        }
        assert(i < h.len());
        i += 1;
    }
    assert forall|k: int| 0 <= k && k + n@.len() <= h@.len() implies #[trigger] h@.subrange(k, k + n@.len()) != n@ by {
        assert(k < i);
    }
    false
}

/// What `str::to_lowercase` returns for a string with these characters.
pub uninterp spec fn lower(s: Seq<char>) -> Seq<char>;

/// What `str::to_uppercase` returns for a string with these characters.
pub uninterp spec fn upper(s: Seq<char>) -> Seq<char>;

/// `str::to_lowercase`: the Unicode lower-case mapping of `s`, which
/// depends on the characters of `s` alone.  Nothing more is stated of it.
#[verifier::external_body]
pub(crate) fn to_lower(s: &str) -> (r: String)
    ensures
        r@ == lower(s@),
{
    s.to_lowercase()
}

/// `str::to_uppercase`: the Unicode upper-case mapping of `s`, which
/// depends on the characters of `s` alone.  Nothing more is stated of it.
#[verifier::external_body]
pub(crate) fn to_upper(s: &str) -> (r: String)
    ensures
        r@ == upper(s@),
{
    s.to_uppercase()
}

/// `s` without its leading white space.
pub open spec fn trim_start(s: Seq<char>) -> Seq<char>
    decreases s.len(),
{
    if s.len() > 0 && is_ws(s[0]) {
        trim_start(s.drop_first())
    } else {
        s
    }
}

/// `s` without its trailing white space.
pub open spec fn trim_end(s: Seq<char>) -> Seq<char>
    decreases s.len(),
{
    if s.len() > 0 && is_ws(s.last()) {
        trim_end(s.drop_last())
    } else {
        s
    }
}

/// `s` without leading and trailing white space, as `str::trim` gives it.
pub open spec fn trimmed(s: Seq<char>) -> Seq<char> {
    trim_end(trim_start(s))
}

proof fn lemma_trim_start_skip(s: Seq<char>, i: int)
    requires
        0 <= i <= s.len(),
        forall|j: int| 0 <= j < i ==> is_ws(#[trigger] s[j]),
    ensures
        trim_start(s) == trim_start(s.skip(i)),
    decreases i,
{
    if i > 0 {
        assert(is_ws(s[0]));
        assert forall|j: int| 0 <= j < i - 1 implies is_ws(#[trigger] s.drop_first()[j]) by {
            assert(s.drop_first()[j] == s[j + 1]);
        }
        lemma_trim_start_skip(s.drop_first(), i - 1);
        assert(s.drop_first().skip(i - 1) =~= s.skip(i));
    } else {
        assert(s.skip(0) =~= s);
    }
}

proof fn lemma_trim_end_take(s: Seq<char>, k: int)
    requires
        0 <= k <= s.len(),
        forall|j: int| k <= j < s.len() ==> is_ws(#[trigger] s[j]),
    ensures
        trim_end(s) == trim_end(s.take(k)),
    decreases s.len() - k,
{
    if k < s.len() {
        assert(s.drop_last().take(k) =~= s.take(k));
        lemma_trim_end_take(s.drop_last(), k);
    } else {
        assert(s.take(k) =~= s);
    }
}

/// Trimming twice trims nothing more.
pub proof fn lemma_trimmed_idempotent(s: Seq<char>)
    ensures
        trimmed(trimmed(s)) == trimmed(s),
{
    lemma_trim_start_fixed(s);
    lemma_trim_start_end(trim_start(s));
    lemma_trim_end_start(trim_start(s));
}

proof fn lemma_trim_start_fixed(s: Seq<char>)
    ensures
        trim_start(trim_start(s)) == trim_start(s),
        trim_start(s).len() > 0 ==> !is_ws(trim_start(s)[0]),
    decreases s.len(),
{
    if s.len() > 0 && is_ws(s[0]) {
        lemma_trim_start_fixed(s.drop_first());
    }
}

proof fn lemma_trim_end_start(t: Seq<char>)
    requires
        t.len() > 0 ==> !is_ws(t[0]),
    ensures
        trim_start(trim_end(t)) == trim_end(t),
    decreases t.len(),
{
    if t.len() > 0 && is_ws(t.last()) {
        let u = t.drop_last();
        if u.len() > 0 {
            assert(u[0] == t[0]);
        }
        lemma_trim_end_start(u);
    }
}

proof fn lemma_trim_start_end(t: Seq<char>)
    ensures
        trim_end(trim_end(t)) == trim_end(t),
    decreases t.len(),
{
    if t.len() > 0 && is_ws(t.last()) {
        lemma_trim_start_end(t.drop_last());
    }
}

/// Removes leading and trailing white space, as `str::trim` does.
pub fn trim_ws(s: &str) -> (r: String)
    ensures
        r@ == trimmed(s@),
{
    let v = chars_of(s);
    let mut i: usize = 0;
    while i < v.len() && is_whitespace(v[i])
        invariant
            v@ == s@,
            0 <= i <= v@.len(),
            forall|j: int| 0 <= j < i ==> is_ws(#[trigger] v@[j]),
        decreases v.len() - i,
    {
        i += 1;
    }
    proof {
        lemma_trim_start_skip(s@, i as int);
        assert(trim_start(s@.skip(i as int)) == s@.skip(i as int));
    }
    let ghost t = s@.skip(i as int);
    let mut k: usize = v.len();
    while k > i && is_whitespace(v[k - 1])
        invariant
            v@ == s@,
            i <= k <= v@.len(),
            t == s@.skip(i as int),
            forall|j: int| k <= j < v@.len() ==> is_ws(#[trigger] v@[j]),
        decreases k,
    {
        k -= 1;
    }
    proof {
        lemma_trim_end_take(t, k - i);
        assert(t.take(k - i) =~= v@.subrange(i as int, k as int));
        if k > i {
            assert(v@.subrange(i as int, k as int).last() == v@[k - 1]);
        }
        assert(trim_end(v@.subrange(i as int, k as int)) == v@.subrange(i as int, k as int));
    }
    string_of(&v, i, k)
}

/// No character of `s` is white space.
pub open spec fn no_ws(s: Seq<char>) -> bool {
    forall|i: int| 0 <= i < s.len() ==> !is_ws(#[trigger] s[i])
}

/// A run without white space adds to the token under construction.
pub(crate) proof fn lemma_tokens_word(w: Seq<char>, cur: Seq<char>)
    requires
        no_ws(w),
    ensures
        tokens_from(w, cur) == flush(cur + w),
    decreases w.len(),
{
    if w.len() == 0 {
        assert(cur + w =~= cur);
    } else {
        assert(!is_ws(w[0]));
        lemma_tokens_word(w.drop_first(), cur.push(w[0]));
        assert(cur.push(w[0]) + w.drop_first() =~= cur + w);
    }
}

/// A white-space character splits the tokens of a text in two.
pub(crate) proof fn lemma_tokens_split(a: Seq<char>, c: char, b: Seq<char>, cur: Seq<char>)
    requires
        is_ws(c),
    ensures
        tokens_from(a + seq![c] + b, cur) == tokens_from(a, cur) + tokens_from(b, Seq::empty()),
    decreases a.len(),
{
    let s = a + seq![c] + b;
    if a.len() == 0 {
        assert(s[0] == c);
        assert(s.drop_first() =~= b);
        assert(tokens_from(a, cur) == flush(cur));
    } else {
        assert(s[0] == a[0]);
        assert(s.drop_first() =~= a.drop_first() + seq![c] + b);
        if is_ws(a[0]) {
            lemma_tokens_split(a.drop_first(), c, b, Seq::empty());
            assert(flush(cur) + (tokens_from(a.drop_first(), Seq::empty()) + tokens_from(
                b,
                Seq::empty(),
            )) =~= flush(cur) + tokens_from(a.drop_first(), Seq::empty()) + tokens_from(
                b,
                Seq::empty(),
            ));
        } else {
            lemma_tokens_split(a.drop_first(), c, b, cur.push(a[0]));
        }
    }
}

/// Parts that are non-empty and free of white space, joined by spaces,
/// split back into the same parts.
pub proof fn lemma_tokens_join(parts: Seq<Seq<char>>)
    requires
        forall|i: int| 0 <= i < parts.len() ==> (#[trigger] parts[i]).len() > 0 && no_ws(parts[i]),
    ensures
        tokens(join_sp(parts)) == parts,
    decreases parts.len(),
{
    if parts.len() == 0 {
    } else if parts.len() == 1 {
        lemma_tokens_word(parts[0], Seq::empty());
        assert(Seq::<char>::empty() + parts[0] =~= parts[0]);
        assert(flush(parts[0]) =~= parts);
    } else {
        let init = parts.drop_last();
        assert forall|i: int| 0 <= i < init.len() implies (#[trigger] init[i]).len() > 0 && no_ws(
            init[i],
        ) by {
            assert(init[i] == parts[i]);
        }
        lemma_tokens_join(init);
        assert(is_ws(' '));
        lemma_tokens_split(join_sp(init), ' ', parts.last(), Seq::empty());
        assert(parts[parts.len() - 1] == parts.last());
        lemma_tokens_word(parts.last(), Seq::empty());
        assert(Seq::<char>::empty() + parts.last() =~= parts.last());
        assert(flush(parts.last()) =~= seq![parts.last()]);
        assert(init + seq![parts.last()] =~= parts);
    }
}

/// Every token is non-empty and free of white space.
pub proof fn lemma_tokens_are_words(s: Seq<char>, cur: Seq<char>)
    requires
        no_ws(cur),
    ensures
        forall|i: int|
            0 <= i < tokens_from(s, cur).len() ==> (#[trigger] tokens_from(s, cur)[i]).len() > 0
                && no_ws(tokens_from(s, cur)[i]),
    decreases s.len(),
{
    if s.len() == 0 {
        if cur.len() > 0 {
            assert(flush(cur) =~= seq![cur]);
        }
    } else if is_ws(s[0]) {
        lemma_tokens_are_words(s.drop_first(), Seq::empty());
        let r = tokens_from(s.drop_first(), Seq::empty());
        assert(tokens_from(s, cur) == flush(cur) + r);
        if cur.len() > 0 {
            assert(flush(cur) =~= seq![cur]);
        }
        assert forall|i: int| 0 <= i < (flush(cur) + r).len() implies (#[trigger] (flush(cur)
            + r)[i]).len() > 0 && no_ws((flush(cur) + r)[i]) by {
            if i >= flush(cur).len() {
                assert((flush(cur) + r)[i] == r[i - flush(cur).len()]);
            }
        }
    } else {
        let c2 = cur.push(s[0]);
        assert forall|i: int| 0 <= i < c2.len() implies !is_ws(#[trigger] c2[i]) by {
            if i < cur.len() {
                assert(c2[i] == cur[i]);
            }
        }
        lemma_tokens_are_words(s.drop_first(), c2);
        assert(tokens_from(s, cur) == tokens_from(s.drop_first(), c2));
    }
}

/// Joining a trailing group of parts is joining them all.
pub proof fn lemma_join_nested(xs: Seq<Seq<char>>, ys: Seq<Seq<char>>)
    requires
        ys.len() > 0,
    ensures
        join_sp(xs + seq![join_sp(ys)]) == join_sp(xs + ys),
    decreases ys.len(),
{
    if ys.len() == 1 {
        assert(seq![join_sp(ys)] =~= ys);
    } else {
        let yi = ys.drop_last();
        lemma_join_nested(xs, yi);
        assert((xs + ys).drop_last() =~= xs + yi);
        assert((xs + ys).last() == ys.last());
        assert((xs + seq![join_sp(ys)]).drop_last() =~= xs);
        assert((xs + seq![join_sp(yi)]).drop_last() =~= xs);
        if xs.len() == 0 {
            assert(xs + seq![join_sp(ys)] =~= seq![join_sp(ys)]);
            assert(xs + seq![join_sp(yi)] =~= seq![join_sp(yi)]);
        } else {
            assert(join_sp(xs) + seq![' '] + (join_sp(yi) + seq![' '] + ys.last()) =~= join_sp(xs)
                + seq![' '] + join_sp(yi) + seq![' '] + ys.last());
        }
    }
}

/// `s` with every leading copy of `p` removed, as `str::trim_start_matches`
/// does with a string pattern.
pub open spec fn strip_all(s: Seq<char>, p: Seq<char>) -> Seq<char>
    decreases s.len(),
{
    if p.len() > 0 && is_prefix(p, s) {
        strip_all(s.skip(p.len() as int), p)
    } else {
        s
    }
}

/// Removes every leading copy of `p` from `v[from..]`; returns where the
/// rest starts.
pub fn strip_all_from(v: &Vec<char>, from: usize, p: &str) -> (r: usize)
    requires
        from <= v@.len(),
    ensures
        from <= r <= v@.len(),
        v@.skip(r as int) == strip_all(v@.skip(from as int), p@),
{
    let pc = chars_of(p);
    let mut i = from;
    loop
        invariant
            pc@ == p@,
            from <= i <= v@.len(),
            strip_all(v@.skip(i as int), p@) == strip_all(v@.skip(from as int), p@),
        ensures
            from <= i <= v@.len(),
            strip_all(v@.skip(i as int), p@) == strip_all(v@.skip(from as int), p@),
            strip_all(v@.skip(i as int), p@) == v@.skip(i as int),
        decreases v.len() - i,
    {
        let ghost rest = v@.skip(i as int);
        if pc.len() == 0 || pc.len() > v.len() - i {
            break;
        }
        let mut j: usize = 0;
        let mut same = true;
        while j < pc.len()
            invariant
                pc@ == p@,
                from <= i <= v@.len(),
                i + pc@.len() <= v@.len(),
                v@.len() <= usize::MAX,
                0 <= j <= pc@.len(),
                same == forall|k: int| 0 <= k < j ==> v@[i + k] == pc@[k],
            decreases pc.len() - j,
        {
            if v[i + j] != pc[j] {
                same = false;
            }
            j += 1;
        }
        if same {
            assert(rest.subrange(0, p@.len() as int) =~= p@);
            assert(rest.skip(p@.len() as int) =~= v@.skip(i + pc@.len()));
            i = i + pc.len();
        } else {
            proof {
                let k = choose|k: int| 0 <= k < j && v@[i + k] != pc@[k];
                assert(rest.subrange(0, p@.len() as int)[k] != p@[k]);
            }
            break;
        }
    }
    i
}

/// Position of the last `c` in `s`, if any.
pub open spec fn last_index(s: Seq<char>, c: char) -> Option<int>
    decreases s.len(),
{
    if s.len() == 0 {
        None
    } else if s.last() == c {
        Some(s.len() - 1)
    } else {
        last_index(s.drop_last(), c)
    }
}

/// The part of `s` before its first `c` (all of `s` when there is none):
/// the first piece of `s.split(c)`.
pub open spec fn before_first(s: Seq<char>, c: char) -> Seq<char>
    decreases s.len(),
{
    if s.len() == 0 {
        s
    } else if s[0] == c {
        Seq::empty()
    } else {
        seq![s[0]] + before_first(s.drop_first(), c)
    }
}

/// `s` without leading and trailing copies of `c`, as `str::trim_matches`
/// does with a character.
pub open spec fn trim_char(s: Seq<char>, c: char) -> Seq<char> {
    trim_char_end(trim_char_start(s, c), c)
}

pub open spec fn trim_char_start(s: Seq<char>, c: char) -> Seq<char>
    decreases s.len(),
{
    if s.len() > 0 && s[0] == c {
        trim_char_start(s.drop_first(), c)
    } else {
        s
    }
}

pub open spec fn trim_char_end(s: Seq<char>, c: char) -> Seq<char>
    decreases s.len(),
{
    if s.len() > 0 && s.last() == c {
        trim_char_end(s.drop_last(), c)
    } else {
        s
    }
}

/// `last_index` points at a `c` inside `s`.
pub proof fn lemma_last_index(s: Seq<char>, c: char)
    ensures
        last_index(s, c) matches Some(k) ==> 0 <= k < s.len() && s[k] == c,
    decreases s.len(),
{
    if s.len() > 0 && s.last() != c {
        lemma_last_index(s.drop_last(), c);
    }
}

/// Position in `v[lo..hi]` of the last `c`, if any.
pub fn find_last(v: &Vec<char>, lo: usize, hi: usize, c: char) -> (r: Option<usize>)
    requires
        lo <= hi <= v@.len(),
    ensures
        match last_index(v@.subrange(lo as int, hi as int), c) {
            Some(k) => r == Some((lo + k) as usize),
            None => r is None,
        },
        r matches Some(k) ==> lo <= k < hi,
{
    let mut k = hi;
    while k > lo
        invariant
            lo <= k <= hi <= v@.len(),
            last_index(v@.subrange(lo as int, hi as int), c) == last_index(
                v@.subrange(lo as int, k as int),
                c,
            ),
        decreases k,
    {
        let ghost sub = v@.subrange(lo as int, k as int);
        assert(sub.last() == v@[k - 1]);
        assert(sub.drop_last() =~= v@.subrange(lo as int, k - 1));
        if v[k - 1] == c {
            return Some(k - 1);
        }
        k -= 1;
    }
    None
}

proof fn lemma_before_first(s: Seq<char>, c: char, i: int)
    requires
        0 <= i <= s.len(),
        forall|j: int| 0 <= j < i ==> s[j] != c,
        i == s.len() || s[i] == c,
    ensures
        before_first(s, c) == s.take(i),
    decreases i,
{
    if i == 0 {
        assert(s.take(0) =~= Seq::<char>::empty());
        if s.len() == 0 {
            assert(s =~= Seq::<char>::empty());
        }
    } else {
        lemma_before_first(s.drop_first(), c, i - 1);
        assert(seq![s[0]] + s.drop_first().take(i - 1) =~= s.take(i));
    }
}

/// End of the first piece of `v[lo..hi]` split at `c`.
pub fn find_first_or_end(v: &Vec<char>, lo: usize, hi: usize, c: char) -> (r: usize)
    requires
        lo <= hi <= v@.len(),
    ensures
        lo <= r <= hi,
        v@.subrange(lo as int, r as int) == before_first(v@.subrange(lo as int, hi as int), c),
{
    let mut i = lo;
    while i < hi && v[i] != c
        invariant
            lo <= i <= hi <= v@.len(),
            forall|j: int| lo <= j < i ==> v@[j] != c,
        decreases hi - i,
    {
        i += 1;
    }
    proof {
        let sub = v@.subrange(lo as int, hi as int);
        lemma_before_first(sub, c, i - lo);
        assert(sub.take(i - lo) =~= v@.subrange(lo as int, i as int));
    }
    i
}

proof fn lemma_trim_char_start(s: Seq<char>, c: char, i: int)
    requires
        0 <= i <= s.len(),
        forall|j: int| 0 <= j < i ==> s[j] == c,
        i == s.len() || s[i] != c,
    ensures
        trim_char_start(s, c) == s.skip(i),
    decreases i,
{
    if i == 0 {
        assert(s.skip(0) =~= s);
    } else {
        lemma_trim_char_start(s.drop_first(), c, i - 1);
        assert(s.drop_first().skip(i - 1) =~= s.skip(i));
    }
}

proof fn lemma_trim_char_end(s: Seq<char>, c: char, k: int)
    requires
        0 <= k <= s.len(),
        forall|j: int| k <= j < s.len() ==> s[j] == c,
        k == 0 || s[k - 1] != c,
    ensures
        trim_char_end(s, c) == s.take(k),
    decreases s.len() - k,
{
    if k == s.len() {
        assert(s.take(k) =~= s);
    } else {
        assert(s.drop_last().take(k) =~= s.take(k));
        lemma_trim_char_end(s.drop_last(), c, k);
    }
}

/// Bounds of `v[lo..hi]` without leading and trailing copies of `c`.
pub fn trim_char_bounds(v: &Vec<char>, lo: usize, hi: usize, c: char) -> (r: (usize, usize))
    requires
        lo <= hi <= v@.len(),
    ensures
        lo <= r.0 <= r.1 <= hi,
        v@.subrange(r.0 as int, r.1 as int) == trim_char(v@.subrange(lo as int, hi as int), c),
{
    let mut i = lo;
    while i < hi && v[i] == c
        invariant
            lo <= i <= hi <= v@.len(),
            forall|j: int| lo <= j < i ==> v@[j] == c,
        decreases hi - i,
    {
        i += 1;
    }
    let ghost sub = v@.subrange(lo as int, hi as int);
    proof {
        lemma_trim_char_start(sub, c, i - lo);
        assert(sub.skip(i - lo) =~= v@.subrange(i as int, hi as int));
    }
    let mut k = hi;
    while k > i && v[k - 1] == c
        invariant
            lo <= i <= k <= hi <= v@.len(),
            forall|j: int| k <= j < hi ==> v@[j] == c,
        decreases k,
    {
        k -= 1;
    }
    proof {
        let t = v@.subrange(i as int, hi as int);
        lemma_trim_char_end(t, c, k - i);
        assert(t.take(k - i) =~= v@.subrange(i as int, k as int));
    }
    (i, k)
}

/// The number an ASCII decimal digit stands for.
pub open spec fn digit_value(c: char) -> int {
    (c as int) - ('0' as int)
}

pub open spec fn is_digit(c: char) -> bool {
    '0' <= c && c <= '9'
}

/// The number written by the decimal digits `s`.
pub open spec fn decimal_value(s: Seq<char>) -> int
    decreases s.len(),
{
    if s.len() == 0 {
        0
    } else {
        decimal_value(s.drop_last()) * 10 + digit_value(s.last())
    }
}

/// What `str::parse::<u16>` accepts: an optional `+`, then one or more
/// ASCII digits whose value fits in 16 bits.
pub open spec fn parse_u16(s: Seq<char>) -> Option<u16> {
    let d = unsigned_part(s);
    if d.len() > 0 && (forall|i: int| 0 <= i < d.len() ==> is_digit(#[trigger] d[i]))
        && decimal_value(d) <= 65535 {
        Some(decimal_value(d) as u16)
    } else {
        None
    }
}

proof fn lemma_decimal_monotone(s: Seq<char>, k: int)
    requires
        0 <= k <= s.len(),
        forall|i: int| 0 <= i < s.len() ==> is_digit(#[trigger] s[i]),
    ensures
        decimal_value(s.take(k)) <= decimal_value(s),
        0 <= decimal_value(s.take(k)),
    decreases s.len() - k,
{
    if k == s.len() {
        assert(s.take(k) =~= s);
        lemma_decimal_nonneg(s);
    } else {
        let t = s.take(k + 1);
        assert(t.drop_last() =~= s.take(k));
        lemma_decimal_monotone(s, k + 1);
        lemma_decimal_nonneg(s.take(k));
        assert(is_digit(t.last()));
    }
}

proof fn lemma_decimal_nonneg(s: Seq<char>)
    requires
        forall|i: int| 0 <= i < s.len() ==> is_digit(#[trigger] s[i]),
    ensures
        0 <= decimal_value(s),
    decreases s.len(),
{
    if s.len() > 0 {
        assert forall|i: int| 0 <= i < s.drop_last().len() implies is_digit(
            #[trigger] s.drop_last()[i],
        ) by {
            assert(s.drop_last()[i] == s[i]);
        }
        lemma_decimal_nonneg(s.drop_last());
        assert(is_digit(s[s.len() - 1]));
    }
}

/// The digits after the optional sign, as `parse_u16` reads them.
pub open spec fn unsigned_part(s: Seq<char>) -> Seq<char> {
    if s.len() > 0 && s[0] == '+' {
        s.drop_first()
    } else {
        s
    }
}

proof fn lemma_parse_u16_non_digit(s: Seq<char>, k: int)
    requires
        0 <= k < unsigned_part(s).len(),
        !is_digit(unsigned_part(s)[k]),
    ensures
        parse_u16(s) is None,
{
}

proof fn lemma_parse_u16_too_big(s: Seq<char>, k: int)
    requires
        0 <= k <= unsigned_part(s).len(),
        forall|j: int| 0 <= j < k ==> is_digit(#[trigger] unsigned_part(s)[j]),
        decimal_value(unsigned_part(s).take(k)) > 65535,
    ensures
        parse_u16(s) is None,
{
    let d = unsigned_part(s);
    if forall|j: int| 0 <= j < d.len() ==> is_digit(#[trigger] d[j]) {
        lemma_decimal_monotone(d, k);
    }
}

/// Reads `v[lo..hi]` as a 16-bit unsigned number, as `str::parse::<u16>`.
pub fn parse_u16_at(v: &Vec<char>, lo: usize, hi: usize) -> (r: Option<u16>)
    requires
        lo <= hi <= v@.len(),
    ensures
        r == parse_u16(v@.subrange(lo as int, hi as int)),
{
    let ghost s = v@.subrange(lo as int, hi as int);
    let mut start = lo;
    if start < hi && v[start] == '+' {
        start = start + 1;
    }
    let ghost d = v@.subrange(start as int, hi as int);
    proof {
        if s.len() > 0 && s[0] == '+' {
            assert(d =~= s.drop_first());
        } else {
            assert(d =~= s);
        }
    }
    if start == hi {
        return None;
    }
    let mut value: u32 = 0;
    let mut i = start;
    while i < hi
        invariant
            lo <= start < hi <= v@.len(),
            start <= i <= hi,
            d == v@.subrange(start as int, hi as int),
            s == v@.subrange(lo as int, hi as int),
            d == unsigned_part(s),
            forall|j: int| 0 <= j < i - start ==> is_digit(#[trigger] d[j]),
            value as int == decimal_value(d.take(i - start)),
            value <= 65535,
        decreases hi - i,
    {
        let c = v[i];
        if !('0' <= c && c <= '9') {
            proof {
                lemma_parse_u16_non_digit(s, i - start);
            }
            return None;
        }
        let ghost t = d.take(i - start + 1);
        assert(t.drop_last() =~= d.take(i - start));
        assert(t.last() == c);
        let next = value * 10 + ((c as u32) - ('0' as u32));
        if next > 65535 {
            proof {
                assert(is_digit(d[i - start]));
                lemma_parse_u16_too_big(s, i - start + 1);
            }
            return None;
        }
        value = next;
        i += 1;
    }
    assert(d.take(hi - start) =~= d);
    Some(value as u16)
}

} // verus!
