//! Server configuration shapes and the database connection string.
//!
//! Reading configuration from files or the environment is the host
//! program's business; this module holds the plain settings values and
//! builds the connection string from them, with the exact text pinned by
//! `connection_string_spec`.

use vstd::prelude::*;
use vstd::string::StringExecFns;

verus! {

pub struct ApplicationConfig {
    pub host: String,
    pub port: u16,
}

pub struct DatabaseConfig {
    pub user: String,
    pub password: String,
    pub host: String,
    pub port: u16,
    pub name: String,
}

pub struct ServerConfig {
    pub application: ApplicationConfig,
    pub db: DatabaseConfig,
}

/// The character for one decimal digit.
pub open spec fn digit_char(d: int) -> char {
    if d == 0 {
        '0'
    } else if d == 1 {
        '1'
    } else if d == 2 {
        '2'
    } else if d == 3 {
        '3'
    } else if d == 4 {
        '4'
    } else if d == 5 {
        '5'
    } else if d == 6 {
        '6'
    } else if d == 7 {
        '7'
    } else if d == 8 {
        '8'
    } else {
        '9'
    }
}

/// The decimal digits of a non-negative number, most significant first,
/// with no leading zeros (zero itself is "0").
pub open spec fn decimal_digits(n: int) -> Seq<char>
    decreases n,
{
    if n < 10 {
        seq![digit_char(n)]
    } else {
        decimal_digits(n / 10).push(digit_char(n % 10))
    }
}

/// The text of a database connection string: scheme, credentials, host,
/// port, and an optional database name.
pub open spec fn connection_string_spec(
    user: Seq<char>,
    password: Seq<char>,
    host: Seq<char>,
    port: u16,
    db_name: Option<Seq<char>>,
) -> Seq<char> {
    "postgres://"@ + user + ":"@ + password + "@"@ + host + ":"@ + decimal_digits(port as int) + (
    match db_name {
        Option::Some(n) => "/"@ + n,
        Option::None => Seq::<char>::empty(),
    })
}

/// Appends one decimal digit.
fn append_digit(s: &mut String, d: u16)
    requires
        d < 10,
    ensures
        final(s)@ == old(s)@ + seq![digit_char(d as int)],
{
    proof {
        reveal_strlit("0");
        reveal_strlit("1");
        reveal_strlit("2");
        reveal_strlit("3");
        reveal_strlit("4");
        reveal_strlit("5");
        reveal_strlit("6");
        reveal_strlit("7");
        reveal_strlit("8");
        reveal_strlit("9");
        assert("0"@ =~= seq![digit_char(0)]);
        assert("1"@ =~= seq![digit_char(1)]);
        assert("2"@ =~= seq![digit_char(2)]);
        assert("3"@ =~= seq![digit_char(3)]);
        assert("4"@ =~= seq![digit_char(4)]);
        assert("5"@ =~= seq![digit_char(5)]);
        assert("6"@ =~= seq![digit_char(6)]);
        assert("7"@ =~= seq![digit_char(7)]);
        assert("8"@ =~= seq![digit_char(8)]);
        assert("9"@ =~= seq![digit_char(9)]);
    }
    match d {
        0 => s.append("0"),
        1 => s.append("1"),
        2 => s.append("2"),
        3 => s.append("3"),
        4 => s.append("4"),
        5 => s.append("5"),
        6 => s.append("6"),
        7 => s.append("7"),
        8 => s.append("8"),
        _ => s.append("9"),
    }
}

/// Appends a number's decimal digits, most significant first.
fn append_decimal(s: &mut String, n: u16)
    ensures
        final(s)@ == old(s)@ + decimal_digits(n as int),
    decreases n,
{
    if n < 10 {
        append_digit(s, n);
    } else {
        append_decimal(s, n / 10);
        append_digit(s, n % 10);
    }
}

/// Builds the connection string for the given credentials, endpoint, and
/// optional database name.
pub fn connection_string(
    user: &str,
    password: &str,
    host: &str,
    port: u16,
    db_name: Option<&str>,
) -> (r: String)
    ensures
        r@ == connection_string_spec(
            user@,
            password@,
            host@,
            port,
            match db_name {
                Option::Some(n) => Option::Some(n@),
                Option::None => Option::None,
            },
        ),
{
    let mut base = "postgres://".to_owned();
    base.append(user);
    base.append(":");
    base.append(password);
    base.append("@");
    base.append(host);
    base.append(":");
    append_decimal(&mut base, port);
    if let Option::Some(n) = db_name {
        base.append("/");
        base.append(n);
    }
    base
}

} // verus!
