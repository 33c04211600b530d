use lucie::common::{measure_enabled, mix_hashes, post_inc, trys};

fn option_returning_function() -> Option<()> {
    None
}

#[test]
fn test_trys_option() {
    let foo = trys(|| {
        option_returning_function()?;
        Some(())
    });

    assert_eq!(foo, None);
}

#[test]
fn trys_result_sum() {
    let ok: Result<i32, std::num::ParseIntError> = trys(|| Ok("1".parse::<i32>()? + "2".parse::<i32>()? + "3".parse::<i32>()?));
    assert_eq!(ok, Ok(6));
    let err: Result<i32, std::num::ParseIntError> = trys(|| Ok("1".parse::<i32>()? + "foo".parse::<i32>()? + "3".parse::<i32>()?));
    assert!(err.is_err());
}

#[test]
fn post_inc_returns_previous_value() {
    let mut v: usize = 41;
    assert_eq!(post_inc(&mut v), 41);
    assert_eq!(v, 42);
    assert_eq!(post_inc(&mut v), 42);
    assert_eq!(v, 43);
}

#[test]
fn mix_hashes_values() {
    assert_eq!(mix_hashes(2, 3), 6);
    assert_eq!(mix_hashes(u64::MAX, u64::MAX), 0xffff_ffff_ffff_ffff);
    assert_eq!(mix_hashes(0x1234567890abcdef, 0xfedcba0987654321), 0xd055e42f46242298);
    assert_eq!(mix_hashes(1 << 63, 4), 2);
    assert_eq!(mix_hashes(0, 12345), 0);
}

#[test]
fn mix_hashes_is_symmetric() {
    assert_eq!(mix_hashes(0x1234567890abcdef, 0xfedcba0987654321), mix_hashes(0xfedcba0987654321, 0x1234567890abcdef));
}

#[test]
fn measure_switch_values() {
    assert!(measure_enabled(Some("1")));
    assert!(measure_enabled(Some("true")));
    assert!(measure_enabled(Some("yes")));
    assert!(measure_enabled(Some("y")));
    assert!(!measure_enabled(Some("0")));
    assert!(!measure_enabled(Some("TRUE")));
    assert!(!measure_enabled(Some("")));
    assert!(!measure_enabled(None));
}

#[test]
fn consecutive_post_inc_calls_count_up() {
    let mut v: usize = 10;
    let got: Vec<usize> = (0..4).map(|_| post_inc(&mut v)).collect();
    assert_eq!(got, vec![10, 11, 12, 13]);
    assert_eq!(v, 14);
}
