use chat_demo::contract::Contract;
use chat_demo::host::{Address, Env, Error};

#[test]
fn test() {
    let mut env = Env::new();

    let addr = Address::new(1);
    env.authorize(addr);

    let msg1 = "Hello World!".to_string();
    let msg2 = "Goodnight Moon!".to_string();

    Contract::send(&mut env, addr, msg1).unwrap();
    Contract::send(&mut env, addr, msg2).unwrap();

    for event in env.events() {
        println!("{:?}", event.topic);
        println!("{:?}", event.payload);
    }

    let log = env.events();
    assert_eq!(log.len(), 2);
    assert_eq!(log[0].topic, addr);
    assert_eq!(log[0].payload, "Hello World!");
    assert_eq!(log[1].topic, addr);
    assert_eq!(log[1].payload, "Goodnight Moon!");
}

#[test]
fn fresh_env_has_empty_log() {
    let env = Env::new();
    assert_eq!(env.events().len(), 0);
}

#[test]
fn send_appends_exactly_one_event() {
    let mut env = Env::new();
    let addr = Address::new(7);
    env.authorize(addr);

    let before = env.events().len();
    let r = Contract::send(&mut env, addr, "Hello World!".to_string());

    assert_eq!(r, Ok(()));
    assert_eq!(env.events().len(), before + 1);
    assert_eq!(env.events()[0].topic, addr);
    assert_eq!(env.events()[0].payload, "Hello World!");
}

#[test]
fn two_sends_land_in_issuance_order() {
    let mut env = Env::new();
    let addr = Address::new(7);
    env.authorize(addr);

    Contract::send(&mut env, addr, "first".to_string()).unwrap();
    Contract::send(&mut env, addr, "second".to_string()).unwrap();

    let log = env.events();
    assert_eq!(log.len(), 2);
    assert_eq!(log[0].payload, "first");
    assert_eq!(log[1].payload, "second");
}

#[test]
fn unauthorized_send_fails_and_publishes_nothing() {
    let mut env = Env::new();
    let addr = Address::new(7);

    let r = Contract::send(&mut env, addr, "Hello World!".to_string());

    assert_eq!(r, Err(Error::AuthorizationFailure));
    assert_eq!(env.events().len(), 0);
}

#[test]
fn authorization_of_one_address_does_not_cover_another() {
    let mut env = Env::new();
    let alice = Address::new(1);
    let mallory = Address::new(2);
    env.authorize(alice);

    let r = Contract::send(&mut env, mallory, "hi".to_string());

    assert_eq!(r, Err(Error::AuthorizationFailure));
    assert_eq!(env.events().len(), 0);

    let r2 = Contract::send(&mut env, alice, "hi".to_string());
    assert_eq!(r2, Ok(()));
    assert_eq!(env.events().len(), 1);
}

#[test]
fn repeated_sends_repeat_events() {
    let mut env = Env::new();
    let addr = Address::new(3);
    env.authorize(addr);

    Contract::send(&mut env, addr, "again".to_string()).unwrap();
    Contract::send(&mut env, addr, "again".to_string()).unwrap();

    let log = env.events();
    assert_eq!(log.len(), 2);
    assert_eq!(log[0].payload, "again");
    assert_eq!(log[1].payload, "again");
}
