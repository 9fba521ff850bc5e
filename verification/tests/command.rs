use mongoscope::command::MongoCommand;
use mongoscope::model::Op;

#[test]
fn names_classify_commands() {
    assert_eq!(MongoCommand::from_name("find"), MongoCommand::Find);
    assert_eq!(MongoCommand::from_name("ismaster"), MongoCommand::Hello);
    assert_eq!(MongoCommand::from_name("listindexesnonblocking"), MongoCommand::ListIndexes);
    assert_eq!(MongoCommand::from_name("frobnicate"), MongoCommand::Other("frobnicate".into()));
}

#[test]
fn collection_keys() {
    assert_eq!(MongoCommand::Find.collection_key(), Some("find"));
    assert_eq!(MongoCommand::GetMore.collection_key(), Some("getmore"));
    assert_eq!(MongoCommand::Other("mapreduce".into()).collection_key(), Some("mapreduce"));
    assert_eq!(MongoCommand::Ping.collection_key(), None);
}

#[test]
fn collection_ddl_names_its_collection_under_its_own_key() {
    assert_eq!(MongoCommand::CreateIndexes.collection_key(), Some("createindexes"));
    assert_eq!(MongoCommand::CreateCollection.collection_key(), Some("create"));
    assert_eq!(MongoCommand::DropCollection.collection_key(), Some("drop"));
    assert_eq!(MongoCommand::DropIndexes.collection_key(), Some("dropindexes"));
    assert_eq!(MongoCommand::ListDatabases.collection_key(), None);
    assert_eq!(MongoCommand::Hello.collection_key(), None);
    assert_eq!(MongoCommand::DropDatabase.collection_key(), None);
}

#[test]
fn handshake_and_system_classes() {
    assert!(MongoCommand::Hello.is_handshake());
    assert!(MongoCommand::Hello.is_system());
    assert!(!MongoCommand::Find.is_system());
    assert!(!MongoCommand::DropDatabase.is_system());
    assert!(MongoCommand::ServerStatus.is_system());
    assert!(MongoCommand::Other("x".into()).is_system());
    assert!(!MongoCommand::Other("x".into()).is_handshake());
}

#[test]
fn operations_of_commands() {
    assert_eq!(MongoCommand::Insert.to_op(), Op::InsertOne);
    assert_eq!(MongoCommand::FindAndModify.to_op(), Op::UpdateOne);
    assert_eq!(MongoCommand::CreateIndexes.to_op(), Op::Unknown("CREATE-IX".into()));
    assert_eq!(MongoCommand::Ping.to_op(), Op::Unknown("HANDSHAKE".into()));
    assert_eq!(MongoCommand::Other("mapReduce".into()).to_op(), Op::Unknown("MAPREDUCE".into()));
    assert_eq!(MongoCommand::Other("x".into()).clone(), MongoCommand::Other("x".into()));
}

#[test]
fn operation_labels_and_classes() {
    assert_eq!(Op::Find.label(), "FIND");
    assert_eq!(Op::UpdateMany.label(), "UPD×");
    assert_eq!(Op::Unknown("distinct".into()).label(), "DISTINCT");
    assert!(Op::Aggregate.is_read());
    assert!(Op::InsertOne.is_write());
    assert!(Op::DeleteOne.is_delete());
    assert!(!Op::Unknown("X".into()).is_read());
}
