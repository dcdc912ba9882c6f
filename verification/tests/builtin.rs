use nix_bindings::builtin::{function_adapter, Builtin, CallReply, RegisterAction, RegisterEvent};
use nix_bindings::error::Error;

/// Registers a builtin with the given outcomes of the three calls; gives the calls made after
/// the first one, and the result.
fn register(
    allocated: Result<u32, String>,
    registered: Result<(), String>,
    released: Result<(), String>,
) -> (Vec<String>, Result<(), Error>) {
    let mut made = Vec::new();
    let mut event = RegisterEvent::Allocated(allocated);
    loop {
        event = match Builtin::next(event) {
            RegisterAction::Register(op) => {
                made.push(format!("register {}", op));
                RegisterEvent::Registered(op, registered.clone())
            }
            RegisterAction::Release(op) => {
                made.push(format!("release {}", op));
                RegisterEvent::Released(released.clone())
            }
            RegisterAction::Return(result) => return (made, result),
        };
    }
}

#[test]
fn first_call_names_the_parameters() {
    let call = Builtin::new("sum", "Adds three numbers.", &["x", "y", "z"]);
    assert_eq!(call.name, "sum");
    assert_eq!(call.doc, "Adds three numbers.");
    assert_eq!(call.arity, 3);
    assert_eq!(call.args, vec![Some("x"), Some("y"), Some("z"), None]);
}

#[test]
fn registration_makes_three_calls() {
    let (made, result) = register(Ok(7), Ok(()), Ok(()));
    assert_eq!(made, vec!["register 7", "release 7"]);
    assert!(result.is_ok());
}

#[test]
fn registration_stops_at_the_first_error() {
    let (made, result) = register(Err("no memory".to_string()), Ok(()), Ok(()));
    assert!(made.is_empty());
    assert_eq!(result.unwrap_err().message(), "no memory");

    let (made, result) = register(Ok(7), Err("exists".to_string()), Ok(()));
    assert_eq!(made, vec!["register 7"]);
    assert_eq!(result.unwrap_err().message(), "exists");

    let (made, result) = register(Ok(7), Ok(()), Err("not held".to_string()));
    assert_eq!(made, vec!["register 7", "release 7"]);
    assert_eq!(result.unwrap_err().message(), "not held");
}

#[test]
fn value_is_copied() {
    match function_adapter(Ok(9u8)) {
        CallReply::CopyValue(v) => assert_eq!(v, 9),
        _ => panic!("expected the value"),
    }
}

fn reported(message: &str) -> Vec<u8> {
    match function_adapter::<u8>(Err(message.to_string())) {
        CallReply::SetError(text) => text.as_bytes_with_nul().to_vec(),
        _ => panic!("expected an error"),
    }
}

#[test]
fn error_message_is_reported() {
    assert_eq!(reported("expected a set"), b"expected a set\0");
    assert_eq!(reported(""), b"\0");
}

#[test]
fn error_message_with_nul_is_replaced() {
    assert_eq!(
        reported("a\0b"),
        b"<rust nix-expr application error message contained null byte>\0"
    );
}
