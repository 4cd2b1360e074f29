use lib::object::Object;

#[test]
fn inspect_prints_each_kind_of_value() {
    assert_eq!(Object::Null._inspect(), "null");
    assert_eq!(Object::Integer(42)._inspect(), "42");
    assert_eq!(Object::Integer(-7)._inspect(), "-7");
    assert_eq!(Object::Integer(i64::MIN)._inspect(), "-9223372036854775808");
    assert_eq!(Object::Boolean(true)._inspect(), "true");
    assert_eq!(Object::Boolean(false)._inspect(), "false");
}
