use contract_database::database::{ContractDatabase, DataMap, MemoryContractDatabase, MemoryDataMap};
use contract_database::errors::Error;
use contract_database::types::{TupleTypeSignature, TypeSignature, Value};

fn owner_type() -> TupleTypeSignature {
    TupleTypeSignature::new(vec![("owner".to_string(), TypeSignature::Principal)])
}

fn amount_type() -> TupleTypeSignature {
    TupleTypeSignature::new(vec![("amount".to_string(), TypeSignature::Int)])
}

fn owner(tag: u8) -> Value {
    let mut address = vec![22u8];
    address.extend_from_slice(&[tag; 20]);
    Value::Tuple(vec![("owner".to_string(), Value::Principal(address))])
}

fn amount(n: i128) -> Value {
    Value::Tuple(vec![("amount".to_string(), Value::Int(n))])
}

fn balances() -> MemoryDataMap {
    MemoryDataMap::new(owner_type(), amount_type())
}

fn key_schema() -> TypeSignature {
    owner_type().into_signature()
}

fn value_schema() -> TypeSignature {
    amount_type().into_signature()
}

#[test]
fn balances_scenario() {
    let mut db = MemoryContractDatabase::new();
    db.create_map("balances", owner_type(), amount_type());
    let map = db.get_mut_data_map("balances").unwrap();
    let a = owner(1);

    assert_eq!(map.insert_entry(a.clone(), amount(100)), Ok(Value::Bool(true)));
    assert_eq!(map.insert_entry(a.clone(), amount(5)), Ok(Value::Bool(false)));
    assert_eq!(map.fetch_entry(&a), Ok(amount(100)));
    assert_eq!(map.set_entry(a.clone(), amount(5)), Ok(()));
    assert_eq!(map.fetch_entry(&a), Ok(amount(5)));
    assert_eq!(map.delete_entry(&a), Ok(Value::Bool(true)));
    assert_eq!(map.fetch_entry(&a), Ok(Value::Void));
    assert_eq!(map.delete_entry(&a), Ok(Value::Bool(false)));
}

#[test]
fn set_then_fetch_round_trips() {
    let mut map = balances();
    for tag in 0..5u8 {
        assert_eq!(map.set_entry(owner(tag), amount(tag as i128 * 10)), Ok(()));
    }
    for tag in 0..5u8 {
        assert_eq!(map.fetch_entry(&owner(tag)), Ok(amount(tag as i128 * 10)));
    }
}

#[test]
fn set_overwrites_an_entry() {
    let mut map = balances();
    assert_eq!(map.set_entry(owner(1), amount(1)), Ok(()));
    assert_eq!(map.set_entry(owner(2), amount(2)), Ok(()));
    assert_eq!(map.set_entry(owner(1), amount(-7)), Ok(()));
    assert_eq!(map.fetch_entry(&owner(1)), Ok(amount(-7)));
    assert_eq!(map.fetch_entry(&owner(2)), Ok(amount(2)));
    assert_eq!(map.entries().len(), 2);
}

#[test]
fn fetch_of_unwritten_key_is_void() {
    let mut map = balances();
    assert_eq!(map.fetch_entry(&owner(9)), Ok(Value::Void));
    assert_eq!(map.set_entry(owner(1), amount(1)), Ok(()));
    assert_eq!(map.fetch_entry(&owner(9)), Ok(Value::Void));
}

#[test]
fn insert_answers_true_once_per_key() {
    let mut map = balances();
    assert_eq!(map.insert_entry(owner(1), amount(1)), Ok(Value::Bool(true)));
    assert_eq!(map.insert_entry(owner(2), amount(2)), Ok(Value::Bool(true)));
    assert_eq!(map.insert_entry(owner(1), amount(3)), Ok(Value::Bool(false)));
    assert_eq!(map.set_entry(owner(1), amount(4)), Ok(()));
    assert_eq!(map.insert_entry(owner(1), amount(5)), Ok(Value::Bool(false)));
    assert_eq!(map.delete_entry(&owner(2)), Ok(Value::Bool(true)));
    assert_eq!(map.insert_entry(owner(1), amount(6)), Ok(Value::Bool(false)));
    assert_eq!(map.fetch_entry(&owner(1)), Ok(amount(4)));
    assert_eq!(map.delete_entry(&owner(1)), Ok(Value::Bool(true)));
    assert_eq!(map.insert_entry(owner(1), amount(7)), Ok(Value::Bool(true)));
    assert_eq!(map.fetch_entry(&owner(1)), Ok(amount(7)));
}

#[test]
fn delete_answers_whether_an_entry_existed() {
    let mut map = balances();
    assert_eq!(map.delete_entry(&owner(1)), Ok(Value::Bool(false)));
    assert_eq!(map.set_entry(owner(1), amount(1)), Ok(()));
    assert_eq!(map.set_entry(owner(2), amount(2)), Ok(()));
    assert_eq!(map.set_entry(owner(3), amount(3)), Ok(()));
    assert_eq!(map.delete_entry(&owner(2)), Ok(Value::Bool(true)));
    assert_eq!(map.fetch_entry(&owner(2)), Ok(Value::Void));
    assert_eq!(map.fetch_entry(&owner(1)), Ok(amount(1)));
    assert_eq!(map.fetch_entry(&owner(3)), Ok(amount(3)));
    assert_eq!(map.delete_entry(&owner(2)), Ok(Value::Bool(false)));
}

#[test]
fn rejected_key_fails_and_changes_nothing() {
    let mut map = balances();
    assert_eq!(map.set_entry(owner(1), amount(1)), Ok(()));
    let bad = amount(1);
    let error = || Err(Error::TypeError(key_schema(), amount(1)));
    assert_eq!(map.fetch_entry(&bad), error());
    assert_eq!(map.set_entry(bad.clone(), amount(2)), Err(Error::TypeError(key_schema(), amount(1))));
    assert_eq!(map.insert_entry(bad.clone(), amount(2)), error());
    assert_eq!(map.delete_entry(&bad), error());
    assert_eq!(map.entries(), vec![(owner(1), amount(1))]);
}

#[test]
fn rejected_value_fails_and_changes_nothing() {
    let mut map = balances();
    assert_eq!(map.set_entry(owner(1), amount(1)), Ok(()));
    let bad = Value::Int(5);
    assert_eq!(
        map.set_entry(owner(1), bad.clone()),
        Err(Error::TypeError(value_schema(), Value::Int(5)))
    );
    assert_eq!(
        map.insert_entry(owner(2), bad.clone()),
        Err(Error::TypeError(value_schema(), Value::Int(5)))
    );
    assert_eq!(map.fetch_entry(&owner(1)), Ok(amount(1)));
    assert_eq!(map.fetch_entry(&owner(2)), Ok(Value::Void));
    assert_eq!(map.entries(), vec![(owner(1), amount(1))]);
}

#[test]
fn key_is_checked_before_value() {
    let mut map = balances();
    assert_eq!(
        map.set_entry(Value::Bool(true), Value::Void),
        Err(Error::TypeError(key_schema(), Value::Bool(true)))
    );
    assert_eq!(
        map.insert_entry(Value::Bool(true), Value::Void),
        Err(Error::TypeError(key_schema(), Value::Bool(true)))
    );
}

#[test]
fn new_map_has_its_schemas_and_no_entry() {
    let map = balances();
    assert_eq!(*map.key_type(), key_schema());
    assert_eq!(*map.value_type(), value_schema());
    assert!(map.entries().is_empty());
}

#[test]
fn missing_map_is_absent() {
    let mut db = MemoryContractDatabase::new();
    assert!(db.get_data_map("balances").is_none());
    assert!(db.get_mut_data_map("balances").is_none());
    db.create_map("balances", owner_type(), amount_type());
    assert!(db.get_data_map("balances").is_some());
    assert!(db.get_data_map("balance").is_none());
    assert!(db.get_data_map("").is_none());
    assert!(db.get_mut_data_map("Balances").is_none());
}

#[test]
fn writes_through_a_handle_reach_the_database() {
    let mut db = MemoryContractDatabase::new();
    db.create_map("balances", owner_type(), amount_type());
    {
        let map = db.get_mut_data_map("balances").unwrap();
        assert_eq!(map.set_entry(owner(1), amount(11)), Ok(()));
    }
    let map = db.get_data_map("balances").unwrap();
    assert_eq!(map.fetch_entry(&owner(1)), Ok(amount(11)));
}

#[test]
fn create_map_again_discards_entries() {
    let mut db = MemoryContractDatabase::new();
    db.create_map("balances", owner_type(), amount_type());
    db.create_map("names", amount_type(), owner_type());
    {
        let map = db.get_mut_data_map("balances").unwrap();
        assert_eq!(map.set_entry(owner(1), amount(11)), Ok(()));
    }
    {
        let map = db.get_mut_data_map("names").unwrap();
        assert_eq!(map.set_entry(amount(1), owner(1)), Ok(()));
    }
    db.create_map("balances", owner_type(), amount_type());
    let map = db.get_data_map("balances").unwrap();
    assert_eq!(map.fetch_entry(&owner(1)), Ok(Value::Void));
    assert!(map.entries().is_empty());
    let names = db.get_data_map("names").unwrap();
    assert_eq!(names.fetch_entry(&amount(1)), Ok(owner(1)));
    let mut listed = db.map_names();
    listed.sort();
    assert_eq!(listed, vec!["balances".to_string(), "names".to_string()]);
}

#[test]
fn create_map_again_takes_the_new_schemas() {
    let mut db = MemoryContractDatabase::new();
    db.create_map("balances", owner_type(), amount_type());
    db.create_map("balances", amount_type(), owner_type());
    let map = db.get_mut_data_map("balances").unwrap();
    assert_eq!(*map.key_type(), value_schema());
    assert_eq!(map.set_entry(amount(1), owner(1)), Ok(()));
    assert_eq!(
        map.set_entry(owner(1), amount(1)),
        Err(Error::TypeError(value_schema(), owner(1)))
    );
}

#[test]
fn install_map_replaces_by_name() {
    let mut db = MemoryContractDatabase::new();
    let mut first = balances();
    assert_eq!(first.set_entry(owner(1), amount(1)), Ok(()));
    let mut second = balances();
    assert_eq!(second.set_entry(owner(2), amount(2)), Ok(()));
    db.install_map("balances", first);
    db.install_map("other", balances());
    db.install_map("balances", second);
    let map = db.get_data_map("balances").unwrap();
    assert_eq!(map.fetch_entry(&owner(1)), Ok(Value::Void));
    assert_eq!(map.fetch_entry(&owner(2)), Ok(amount(2)));
    assert_eq!(db.map_names().len(), 2);
}

#[test]
fn restore_rebuilds_a_map_from_its_entries() {
    let mut map = balances();
    for tag in 0..4u8 {
        assert_eq!(map.set_entry(owner(tag), amount(tag as i128)), Ok(()));
    }
    assert_eq!(map.delete_entry(&owner(1)), Ok(Value::Bool(true)));
    let entries = map.entries();
    assert_eq!(entries.len(), 3);
    let restored =
        MemoryDataMap::restore(map.key_type().clone(), map.value_type().clone(), &entries).unwrap();
    assert_eq!(*restored.key_type(), key_schema());
    assert_eq!(*restored.value_type(), value_schema());
    for tag in 0..5u8 {
        assert_eq!(restored.fetch_entry(&owner(tag)), map.fetch_entry(&owner(tag)));
    }
    assert_eq!(restored.entries().len(), 3);
}

#[test]
fn restore_keeps_the_later_of_two_entries() {
    let entries = vec![(owner(1), amount(1)), (owner(2), amount(2)), (owner(1), amount(3))];
    let restored = MemoryDataMap::restore(key_schema(), value_schema(), &entries).unwrap();
    assert_eq!(restored.fetch_entry(&owner(1)), Ok(amount(3)));
    assert_eq!(restored.fetch_entry(&owner(2)), Ok(amount(2)));
    assert_eq!(restored.entries().len(), 2);
}

#[test]
fn restore_refuses_the_first_ill_typed_entry() {
    let entries = vec![
        (owner(1), amount(1)),
        (owner(2), Value::Bool(false)),
        (Value::Void, amount(3)),
    ];
    assert_eq!(
        MemoryDataMap::restore(key_schema(), value_schema(), &entries).err(),
        Some(Error::TypeError(value_schema(), Value::Bool(false)))
    );
}
