use sixty_challenge_days::bank_account::BankAccount;
use sixty_challenge_days::number::{parse_i32, parse_u32, push_decimal};

#[test]
fn parse_i32_reads_like_str_parse() {
    for text in [
        "0", "+5", "-17", "007", "-", "+", "", "2147483647", "2147483648", "-2147483648",
        "-2147483649", "+-1", "1 ", "12a", "99999999999999999999",
    ] {
        assert_eq!(parse_i32(text), text.parse::<i32>().ok(), "{}", text);
    }
}

#[test]
fn parse_u32_reads_like_str_parse() {
    for text in [
        "0", "+5", "-0", "-1", "4294967295", "4294967296", "", "+", "x", "0042",
    ] {
        assert_eq!(parse_u32(text), text.parse::<u32>().ok(), "{}", text);
    }
}

#[test]
fn push_decimal_writes_like_display() {
    for n in [0i64, 7, -7, 10, 1234567890, i64::MAX, i64::MIN] {
        let mut out = vec!['x'];
        push_decimal(&mut out, n);
        let text: String = out.iter().collect();
        assert_eq!(text, format!("x{}", n));
    }
}

#[test]
fn refused_withdrawal_is_logged() {
    let mut account = BankAccount::new(3, -20);
    assert!(!account.withdraw(-5, "Ana"));
    assert_eq!(
        account.transaction_log[0],
        "Ana failed to withdraw: -5. Insufficient funds or invalid amount. Balance: -20"
    );
    account.deposit(25, "Ana");
    assert_eq!(account.transaction_log[1], "Ana deposited: 25. New balance: 5");
}
