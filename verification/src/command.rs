//! Classification of the commands seen on the wire.

use vstd::prelude::*;
use crate::model::{op_is_delete, op_is_read, op_is_write, op_label, Op};
use crate::text::{chars_of, same_chars, to_upper, upper};

verus! {

/// Every MongoDB wire-protocol command the intercept layer sees, classified.
#[derive(Debug, PartialEq, Eq)]
pub enum MongoCommand {
    Find,
    Aggregate,
    Insert,
    Update,
    Delete,
    FindAndModify,
    Count,
    Distinct,
    CreateCollection,
    DropCollection,
    CreateIndexes,
    DropIndexes,
    CreateSearchIndexes,
    DropSearchIndex,
    UpdateSearchIndex,
    RenameCollection,
    DropDatabase,
    Explain,
    ListDatabases,
    ListCollections,
    ListIndexes,
    GetParameter,
    GetMore,
    KillCursors,
    ConnectionStatus,
    ServerStatus,
    CurrentOp,
    ReplSetGetStatus,
    Hello,
    Ping,
    WhatsMyUri,
    BuildInfo,
    EndSessions,
    SaslStart,
    SaslContinue,
    Logout,
    GetNonce,
    GetLastError,
    Authenticate,
    /// Any other command, by its (lower-case) name.
    Other(String),
}

impl Clone for MongoCommand {
    fn clone(&self) -> (r: Self)
        ensures
            r == *self,
    {
        match self {
            MongoCommand::Find => MongoCommand::Find,
            MongoCommand::Aggregate => MongoCommand::Aggregate,
            MongoCommand::Insert => MongoCommand::Insert,
            MongoCommand::Update => MongoCommand::Update,
            MongoCommand::Delete => MongoCommand::Delete,
            MongoCommand::FindAndModify => MongoCommand::FindAndModify,
            MongoCommand::Count => MongoCommand::Count,
            MongoCommand::Distinct => MongoCommand::Distinct,
            MongoCommand::CreateCollection => MongoCommand::CreateCollection,
            MongoCommand::DropCollection => MongoCommand::DropCollection,
            MongoCommand::CreateIndexes => MongoCommand::CreateIndexes,
            MongoCommand::DropIndexes => MongoCommand::DropIndexes,
            MongoCommand::CreateSearchIndexes => MongoCommand::CreateSearchIndexes,
            MongoCommand::DropSearchIndex => MongoCommand::DropSearchIndex,
            MongoCommand::UpdateSearchIndex => MongoCommand::UpdateSearchIndex,
            MongoCommand::RenameCollection => MongoCommand::RenameCollection,
            MongoCommand::DropDatabase => MongoCommand::DropDatabase,
            MongoCommand::Explain => MongoCommand::Explain,
            MongoCommand::ListDatabases => MongoCommand::ListDatabases,
            MongoCommand::ListCollections => MongoCommand::ListCollections,
            MongoCommand::ListIndexes => MongoCommand::ListIndexes,
            MongoCommand::GetParameter => MongoCommand::GetParameter,
            MongoCommand::GetMore => MongoCommand::GetMore,
            MongoCommand::KillCursors => MongoCommand::KillCursors,
            MongoCommand::ConnectionStatus => MongoCommand::ConnectionStatus,
            MongoCommand::ServerStatus => MongoCommand::ServerStatus,
            MongoCommand::CurrentOp => MongoCommand::CurrentOp,
            MongoCommand::ReplSetGetStatus => MongoCommand::ReplSetGetStatus,
            MongoCommand::Hello => MongoCommand::Hello,
            MongoCommand::Ping => MongoCommand::Ping,
            MongoCommand::WhatsMyUri => MongoCommand::WhatsMyUri,
            MongoCommand::BuildInfo => MongoCommand::BuildInfo,
            MongoCommand::EndSessions => MongoCommand::EndSessions,
            MongoCommand::SaslStart => MongoCommand::SaslStart,
            MongoCommand::SaslContinue => MongoCommand::SaslContinue,
            MongoCommand::Logout => MongoCommand::Logout,
            MongoCommand::GetNonce => MongoCommand::GetNonce,
            MongoCommand::GetLastError => MongoCommand::GetLastError,
            MongoCommand::Authenticate => MongoCommand::Authenticate,
            MongoCommand::Other(name) => MongoCommand::Other(name.clone()),
        }
    }
}

/// The command a known (lower-case) wire name denotes.
pub open spec fn command_named(name: Seq<char>) -> Option<MongoCommand> {
    if name == "find"@ {
        Some(MongoCommand::Find)
    } else if name == "aggregate"@ {
        Some(MongoCommand::Aggregate)
    } else if name == "insert"@ {
        Some(MongoCommand::Insert)
    } else if name == "update"@ {
        Some(MongoCommand::Update)
    } else if name == "delete"@ {
        Some(MongoCommand::Delete)
    } else if name == "findandmodify"@ {
        Some(MongoCommand::FindAndModify)
    } else if name == "count"@ {
        Some(MongoCommand::Count)
    } else if name == "distinct"@ {
        Some(MongoCommand::Distinct)
    } else if name == "create"@ {
        Some(MongoCommand::CreateCollection)
    } else if name == "drop"@ {
        Some(MongoCommand::DropCollection)
    } else if name == "createindexes"@ {
        Some(MongoCommand::CreateIndexes)
    } else if name == "dropindexes"@ {
        Some(MongoCommand::DropIndexes)
    } else if name == "createsearchindexes"@ {
        Some(MongoCommand::CreateSearchIndexes)
    } else if name == "dropsearchindex"@ {
        Some(MongoCommand::DropSearchIndex)
    } else if name == "updatesearchindex"@ {
        Some(MongoCommand::UpdateSearchIndex)
    } else if name == "renamecollection"@ {
        Some(MongoCommand::RenameCollection)
    } else if name == "dropdatabase"@ {
        Some(MongoCommand::DropDatabase)
    } else if name == "explain"@ {
        Some(MongoCommand::Explain)
    } else if name == "listdatabases"@ {
        Some(MongoCommand::ListDatabases)
    } else if name == "listcollections"@ {
        Some(MongoCommand::ListCollections)
    } else if name == "listindexes"@ {
        Some(MongoCommand::ListIndexes)
    } else if name == "listindexesnonblocking"@ {
        Some(MongoCommand::ListIndexes)
    } else if name == "getparameter"@ {
        Some(MongoCommand::GetParameter)
    } else if name == "getmore"@ {
        Some(MongoCommand::GetMore)
    } else if name == "killcursors"@ {
        Some(MongoCommand::KillCursors)
    } else if name == "connectionstatus"@ {
        Some(MongoCommand::ConnectionStatus)
    } else if name == "serverstatus"@ {
        Some(MongoCommand::ServerStatus)
    } else if name == "currentop"@ {
        Some(MongoCommand::CurrentOp)
    } else if name == "replsetgetstatus"@ {
        Some(MongoCommand::ReplSetGetStatus)
    } else if name == "hello"@ {
        Some(MongoCommand::Hello)
    } else if name == "ismaster"@ {
        Some(MongoCommand::Hello)
    } else if name == "isnew"@ {
        Some(MongoCommand::Hello)
    } else if name == "whatsmyuri"@ {
        Some(MongoCommand::WhatsMyUri)
    } else if name == "buildinfo"@ {
        Some(MongoCommand::BuildInfo)
    } else if name == "buildinfowithversion"@ {
        Some(MongoCommand::BuildInfo)
    } else if name == "ping"@ {
        Some(MongoCommand::Ping)
    } else if name == "endsessions"@ {
        Some(MongoCommand::EndSessions)
    } else if name == "saslstart"@ {
        Some(MongoCommand::SaslStart)
    } else if name == "saslcontinue"@ {
        Some(MongoCommand::SaslContinue)
    } else if name == "logout"@ {
        Some(MongoCommand::Logout)
    } else if name == "getnonce"@ {
        Some(MongoCommand::GetNonce)
    } else if name == "getlasterror"@ {
        Some(MongoCommand::GetLastError)
    } else if name == "authenticate"@ {
        Some(MongoCommand::Authenticate)
    } else {
        None
    }
}

/// The key whose value names the target collection, if the command
/// targets a single collection: each such command names it under its own
/// (lower-case) name.
pub open spec fn collection_key_of(c: MongoCommand) -> Option<Seq<char>> {
    match c {
        MongoCommand::Find => Some("find"@),
        MongoCommand::Aggregate => Some("aggregate"@),
        MongoCommand::Insert => Some("insert"@),
        MongoCommand::Update => Some("update"@),
        MongoCommand::Delete => Some("delete"@),
        MongoCommand::FindAndModify => Some("findandmodify"@),
        MongoCommand::Count => Some("count"@),
        MongoCommand::Distinct => Some("distinct"@),
        MongoCommand::Explain => Some("explain"@),
        MongoCommand::GetMore => Some("getmore"@),
        MongoCommand::CreateCollection => Some("create"@),
        MongoCommand::DropCollection => Some("drop"@),
        MongoCommand::CreateIndexes => Some("createindexes"@),
        MongoCommand::DropIndexes => Some("dropindexes"@),
        MongoCommand::CreateSearchIndexes => Some("createsearchindexes"@),
        MongoCommand::DropSearchIndex => Some("dropsearchindex"@),
        MongoCommand::UpdateSearchIndex => Some("updatesearchindex"@),
        MongoCommand::Other(name) => Some(name@),
        _ => None,
    }
}

/// Connection and authentication handshake commands, never shown.
pub open spec fn is_handshake_cmd(c: MongoCommand) -> bool {
    c is Hello || c is Ping || c is WhatsMyUri || c is BuildInfo || c is EndSessions || c is SaslStart || c is SaslContinue || c is Logout || c is GetNonce || c is GetLastError || c is Authenticate
}

/// Commands that are not user queries or user DDL.
pub open spec fn is_system_cmd(c: MongoCommand) -> bool {
    !(c is Find || c is Aggregate || c is Insert || c is Update || c is Delete || c is FindAndModify || c is Count || c is Distinct || c is CreateCollection || c is DropCollection || c is CreateIndexes || c is DropIndexes || c is CreateSearchIndexes || c is DropSearchIndex || c is UpdateSearchIndex || c is RenameCollection || c is DropDatabase)
}

/// The operation recorded for a command.
pub open spec fn command_op(c: MongoCommand, op: Op) -> bool {
    match c {
        MongoCommand::Find => op == Op::Find,
        MongoCommand::Aggregate => op == Op::Aggregate,
        MongoCommand::Insert => op == Op::InsertOne,
        MongoCommand::Update => op == Op::UpdateMany,
        MongoCommand::Delete => op == Op::DeleteMany,
        MongoCommand::FindAndModify => op == Op::UpdateOne,
        MongoCommand::Count => op == Op::CountDocuments,
        MongoCommand::Distinct => op matches Op::Unknown(s) && s@ == "DISTINCT"@,
        MongoCommand::CreateCollection => op matches Op::Unknown(s) && s@ == "CREATE-COLL"@,
        MongoCommand::DropCollection => op matches Op::Unknown(s) && s@ == "DROP-COLL"@,
        MongoCommand::CreateIndexes => op matches Op::Unknown(s) && s@ == "CREATE-IX"@,
        MongoCommand::DropIndexes => op matches Op::Unknown(s) && s@ == "DROP-IX"@,
        MongoCommand::CreateSearchIndexes => op matches Op::Unknown(s) && s@ == "CREATE-SRCH-IX"@,
        MongoCommand::DropSearchIndex => op matches Op::Unknown(s) && s@ == "DROP-SRCH-IX"@,
        MongoCommand::UpdateSearchIndex => op matches Op::Unknown(s) && s@ == "UPD-SRCH-IX"@,
        MongoCommand::RenameCollection => op matches Op::Unknown(s) && s@ == "RENAME-COLL"@,
        MongoCommand::DropDatabase => op matches Op::Unknown(s) && s@ == "DROP-DB"@,
        MongoCommand::Explain => op matches Op::Unknown(s) && s@ == "EXPLAIN"@,
        MongoCommand::ListDatabases => op matches Op::Unknown(s) && s@ == "LIST-DBS"@,
        MongoCommand::ListCollections => op matches Op::Unknown(s) && s@ == "LIST-COLLS"@,
        MongoCommand::ListIndexes => op matches Op::Unknown(s) && s@ == "LIST-IX"@,
        MongoCommand::GetParameter => op matches Op::Unknown(s) && s@ == "GET-PARAM"@,
        MongoCommand::GetMore => op matches Op::Unknown(s) && s@ == "GETMORE"@,
        MongoCommand::KillCursors => op matches Op::Unknown(s) && s@ == "KILL-CURS"@,
        MongoCommand::ConnectionStatus => op matches Op::Unknown(s) && s@ == "CONN-STATUS"@,
        MongoCommand::ServerStatus => op matches Op::Unknown(s) && s@ == "SRV-STATUS"@,
        MongoCommand::CurrentOp => op matches Op::Unknown(s) && s@ == "CURRENT-OP"@,
        MongoCommand::ReplSetGetStatus => op matches Op::Unknown(s) && s@ == "REPL-STATUS"@,
        MongoCommand::Hello => op matches Op::Unknown(s) && s@ == "HANDSHAKE"@,
        MongoCommand::Ping => op matches Op::Unknown(s) && s@ == "HANDSHAKE"@,
        MongoCommand::WhatsMyUri => op matches Op::Unknown(s) && s@ == "HANDSHAKE"@,
        MongoCommand::BuildInfo => op matches Op::Unknown(s) && s@ == "HANDSHAKE"@,
        MongoCommand::EndSessions => op matches Op::Unknown(s) && s@ == "HANDSHAKE"@,
        MongoCommand::SaslStart => op matches Op::Unknown(s) && s@ == "HANDSHAKE"@,
        MongoCommand::SaslContinue => op matches Op::Unknown(s) && s@ == "HANDSHAKE"@,
        MongoCommand::Logout => op matches Op::Unknown(s) && s@ == "HANDSHAKE"@,
        MongoCommand::GetNonce => op matches Op::Unknown(s) && s@ == "HANDSHAKE"@,
        MongoCommand::GetLastError => op matches Op::Unknown(s) && s@ == "HANDSHAKE"@,
        MongoCommand::Authenticate => op matches Op::Unknown(s) && s@ == "HANDSHAKE"@,
        MongoCommand::Other(name) => op matches Op::Unknown(s) && s@ == upper(name@),
    }
}

impl MongoCommand {
    /// Classifies a raw, already lower-cased command name.
    pub fn from_name(name: &str) -> (r: MongoCommand)
        ensures
            match command_named(name@) {
                Some(c) => r == c,
                None => r matches MongoCommand::Other(s) && s@ == name@,
            },
    {
        let v = chars_of(name);
        if same_chars(&v, "find") {
            MongoCommand::Find
        } else if same_chars(&v, "aggregate") {
            MongoCommand::Aggregate
        } else if same_chars(&v, "insert") {
            MongoCommand::Insert
        } else if same_chars(&v, "update") {
            MongoCommand::Update
        } else if same_chars(&v, "delete") {
            MongoCommand::Delete
        } else if same_chars(&v, "findandmodify") {
            MongoCommand::FindAndModify
        } else if same_chars(&v, "count") {
            MongoCommand::Count
        } else if same_chars(&v, "distinct") {
            MongoCommand::Distinct
        } else if same_chars(&v, "create") {
            MongoCommand::CreateCollection
        } else if same_chars(&v, "drop") {
            MongoCommand::DropCollection
        } else if same_chars(&v, "createindexes") {
            MongoCommand::CreateIndexes
        } else if same_chars(&v, "dropindexes") {
            MongoCommand::DropIndexes
        } else if same_chars(&v, "createsearchindexes") {
            MongoCommand::CreateSearchIndexes
        } else if same_chars(&v, "dropsearchindex") {
            MongoCommand::DropSearchIndex
        } else if same_chars(&v, "updatesearchindex") {
            MongoCommand::UpdateSearchIndex
        } else if same_chars(&v, "renamecollection") {
            MongoCommand::RenameCollection
        } else if same_chars(&v, "dropdatabase") {
            MongoCommand::DropDatabase
        } else if same_chars(&v, "explain") {
            MongoCommand::Explain
        } else if same_chars(&v, "listdatabases") {
            MongoCommand::ListDatabases
        } else if same_chars(&v, "listcollections") {
            MongoCommand::ListCollections
        } else if same_chars(&v, "listindexes") {
            MongoCommand::ListIndexes
        } else if same_chars(&v, "listindexesnonblocking") {
            MongoCommand::ListIndexes
        } else if same_chars(&v, "getparameter") {
            MongoCommand::GetParameter
        } else if same_chars(&v, "getmore") {
            MongoCommand::GetMore
        } else if same_chars(&v, "killcursors") {
            MongoCommand::KillCursors
        } else if same_chars(&v, "connectionstatus") {
            MongoCommand::ConnectionStatus
        } else if same_chars(&v, "serverstatus") {
            MongoCommand::ServerStatus
        } else if same_chars(&v, "currentop") {
            MongoCommand::CurrentOp
        } else if same_chars(&v, "replsetgetstatus") {
            MongoCommand::ReplSetGetStatus
        } else if same_chars(&v, "hello") {
            MongoCommand::Hello
        } else if same_chars(&v, "ismaster") {
            MongoCommand::Hello
        } else if same_chars(&v, "isnew") {
            MongoCommand::Hello
        } else if same_chars(&v, "whatsmyuri") {
            MongoCommand::WhatsMyUri
        } else if same_chars(&v, "buildinfo") {
            MongoCommand::BuildInfo
        } else if same_chars(&v, "buildinfowithversion") {
            MongoCommand::BuildInfo
        } else if same_chars(&v, "ping") {
            MongoCommand::Ping
        } else if same_chars(&v, "endsessions") {
            MongoCommand::EndSessions
        } else if same_chars(&v, "saslstart") {
            MongoCommand::SaslStart
        } else if same_chars(&v, "saslcontinue") {
            MongoCommand::SaslContinue
        } else if same_chars(&v, "logout") {
            MongoCommand::Logout
        } else if same_chars(&v, "getnonce") {
            MongoCommand::GetNonce
        } else if same_chars(&v, "getlasterror") {
            MongoCommand::GetLastError
        } else if same_chars(&v, "authenticate") {
            MongoCommand::Authenticate
        } else {
            MongoCommand::Other(name.to_string())
        }
    }

    /// The key whose value names the target collection (for `find` the
    /// value of `"find"`); `None` for commands that do not target a single
    /// collection.
    pub fn collection_key(&self) -> (r: Option<&str>)
        ensures
            match collection_key_of(*self) {
                Some(k) => r matches Some(x) && x@ == k,
                None => r is None,
            },
    {
        match self {
            MongoCommand::Find => Some("find"),
            MongoCommand::Aggregate => Some("aggregate"),
            MongoCommand::Insert => Some("insert"),
            MongoCommand::Update => Some("update"),
            MongoCommand::Delete => Some("delete"),
            MongoCommand::FindAndModify => Some("findandmodify"),
            MongoCommand::Count => Some("count"),
            MongoCommand::Distinct => Some("distinct"),
            MongoCommand::Explain => Some("explain"),
            MongoCommand::GetMore => Some("getmore"),
            MongoCommand::CreateCollection => Some("create"),
            MongoCommand::DropCollection => Some("drop"),
            MongoCommand::CreateIndexes => Some("createindexes"),
            MongoCommand::DropIndexes => Some("dropindexes"),
            MongoCommand::CreateSearchIndexes => Some("createsearchindexes"),
            MongoCommand::DropSearchIndex => Some("dropsearchindex"),
            MongoCommand::UpdateSearchIndex => Some("updatesearchindex"),
            MongoCommand::Other(name) => Some(name.as_str()),
            _ => None,
        }
    }

    /// True for commands that never appear in the feed.
    pub fn is_handshake(&self) -> (r: bool)
        ensures
            r == is_handshake_cmd(*self),
    {
        matches!(self, MongoCommand::Hello | MongoCommand::Ping | MongoCommand::WhatsMyUri | MongoCommand::BuildInfo | MongoCommand::EndSessions | MongoCommand::SaslStart | MongoCommand::SaslContinue | MongoCommand::Logout | MongoCommand::GetNonce | MongoCommand::GetLastError | MongoCommand::Authenticate)
    }

    /// True for driver and admin commands, hidden by default; user queries
    /// and user DDL are not system commands, everything else is.
    pub fn is_system(&self) -> (r: bool)
        ensures
            r == is_system_cmd(*self),
    {
        !matches!(self, MongoCommand::Find | MongoCommand::Aggregate | MongoCommand::Insert | MongoCommand::Update | MongoCommand::Delete | MongoCommand::FindAndModify | MongoCommand::Count | MongoCommand::Distinct | MongoCommand::CreateCollection | MongoCommand::DropCollection | MongoCommand::CreateIndexes | MongoCommand::DropIndexes | MongoCommand::CreateSearchIndexes | MongoCommand::DropSearchIndex | MongoCommand::UpdateSearchIndex | MongoCommand::RenameCollection | MongoCommand::DropDatabase)
    }

    /// The operation recorded in a captured request.
    pub fn to_op(&self) -> (r: Op)
        ensures
            command_op(*self, r),
    {
        match self {
            MongoCommand::Find => Op::Find,
            MongoCommand::Aggregate => Op::Aggregate,
            MongoCommand::Insert => Op::InsertOne,
            MongoCommand::Update => Op::UpdateMany,
            MongoCommand::Delete => Op::DeleteMany,
            MongoCommand::FindAndModify => Op::UpdateOne,
            MongoCommand::Count => Op::CountDocuments,
            MongoCommand::Distinct => Op::Unknown("DISTINCT".to_string()),
            MongoCommand::CreateCollection => Op::Unknown("CREATE-COLL".to_string()),
            MongoCommand::DropCollection => Op::Unknown("DROP-COLL".to_string()),
            MongoCommand::CreateIndexes => Op::Unknown("CREATE-IX".to_string()),
            MongoCommand::DropIndexes => Op::Unknown("DROP-IX".to_string()),
            MongoCommand::CreateSearchIndexes => Op::Unknown("CREATE-SRCH-IX".to_string()),
            MongoCommand::DropSearchIndex => Op::Unknown("DROP-SRCH-IX".to_string()),
            MongoCommand::UpdateSearchIndex => Op::Unknown("UPD-SRCH-IX".to_string()),
            MongoCommand::RenameCollection => Op::Unknown("RENAME-COLL".to_string()),
            MongoCommand::DropDatabase => Op::Unknown("DROP-DB".to_string()),
            MongoCommand::Explain => Op::Unknown("EXPLAIN".to_string()),
            MongoCommand::ListDatabases => Op::Unknown("LIST-DBS".to_string()),
            MongoCommand::ListCollections => Op::Unknown("LIST-COLLS".to_string()),
            MongoCommand::ListIndexes => Op::Unknown("LIST-IX".to_string()),
            MongoCommand::GetParameter => Op::Unknown("GET-PARAM".to_string()),
            MongoCommand::GetMore => Op::Unknown("GETMORE".to_string()),
            MongoCommand::KillCursors => Op::Unknown("KILL-CURS".to_string()),
            MongoCommand::ConnectionStatus => Op::Unknown("CONN-STATUS".to_string()),
            MongoCommand::ServerStatus => Op::Unknown("SRV-STATUS".to_string()),
            MongoCommand::CurrentOp => Op::Unknown("CURRENT-OP".to_string()),
            MongoCommand::ReplSetGetStatus => Op::Unknown("REPL-STATUS".to_string()),
            MongoCommand::Hello => Op::Unknown("HANDSHAKE".to_string()),
            MongoCommand::Ping => Op::Unknown("HANDSHAKE".to_string()),
            MongoCommand::WhatsMyUri => Op::Unknown("HANDSHAKE".to_string()),
            MongoCommand::BuildInfo => Op::Unknown("HANDSHAKE".to_string()),
            MongoCommand::EndSessions => Op::Unknown("HANDSHAKE".to_string()),
            MongoCommand::SaslStart => Op::Unknown("HANDSHAKE".to_string()),
            MongoCommand::SaslContinue => Op::Unknown("HANDSHAKE".to_string()),
            MongoCommand::Logout => Op::Unknown("HANDSHAKE".to_string()),
            MongoCommand::GetNonce => Op::Unknown("HANDSHAKE".to_string()),
            MongoCommand::GetLastError => Op::Unknown("HANDSHAKE".to_string()),
            MongoCommand::Authenticate => Op::Unknown("HANDSHAKE".to_string()),
            MongoCommand::Other(name) => Op::Unknown(to_upper(name.as_str())),
        }
    }
}

/// What a command records, by class: a `delete` command is recorded as a
/// delete and nothing else is; `insert`, `update` and `findAndModify` are
/// the writes; `find`, `aggregate` and `count` are the reads; every other
/// command is recorded under a raw name, neither read nor write.  The
/// labels shown are those of the operation each command performs.
pub proof fn lemma_command_op_classes(c: MongoCommand, op: Op)
    requires
        command_op(c, op),
    ensures
        op_is_delete(op) <==> c is Delete,
        op_is_write(op) <==> (c is Insert || c is Update || c is FindAndModify),
        op_is_read(op) <==> (c is Find || c is Aggregate || c is Count),
        !op_is_delete(op) && !op_is_write(op) && !op_is_read(op) <==> op is Unknown,
        c is Delete ==> op_label(op) == "DEL"@,
        c is Insert ==> op_label(op) == "INS"@,
        c is Update ==> op_label(op) == "UPD×"@,
        c is FindAndModify ==> op_label(op) == "UPD"@,
        c is Find ==> op_label(op) == "FIND"@,
        c is Aggregate ==> op_label(op) == "AGG"@,
        c is Count ==> op_label(op) == "CNT"@,
        (c is Update ==> op != Op::UpdateOne) && (c is FindAndModify ==> op != Op::UpdateMany),
{
}

/// Handshake commands are system commands, and user commands are neither.
pub proof fn lemma_handshake_is_system(c: MongoCommand)
    ensures
        is_handshake_cmd(c) ==> is_system_cmd(c),
        !is_system_cmd(c) ==> !is_handshake_cmd(c) && collection_key_of(c) is Some || c is CreateCollection
            || c is DropCollection || c is CreateIndexes || c is DropIndexes || c is CreateSearchIndexes
            || c is DropSearchIndex || c is UpdateSearchIndex || c is RenameCollection || c is DropDatabase,
{
}

} // verus!
