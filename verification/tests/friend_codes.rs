use chat_hub::codes::generate_friend_code;

#[test]
fn test_generate_friend_code() {
    let code = generate_friend_code();
    assert_eq!(code.len(), 12); // GC-XXXX-XXXX
    assert!(code.starts_with("GC-"));

    let parts: Vec<&str> = code.split('-').collect();
    assert_eq!(parts.len(), 3);
    assert_eq!(parts[0], "GC");
    assert_eq!(parts[1].len(), 4);
    assert_eq!(parts[2].len(), 4);
}

#[test]
fn test_uniqueness() {
    let mut codes = std::collections::HashSet::new();
    for _ in 0..1000 {
        let code = generate_friend_code();
        codes.insert(code);
    }
    assert_eq!(codes.len(), 1000);
}

#[test]
fn code_draws_from_the_safe_alphabet() {
    for _ in 0..50 {
        let code = generate_friend_code();
        for c in code[3..7].chars().chain(code[8..12].chars()) {
            assert!("ABCDEFGHJKLMNPQRSTUVWXYZ23456789".contains(c), "bad char {c}");
        }
    }
}
