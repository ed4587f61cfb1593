//! What the program is told on its command line.

use vstd::prelude::*;
use vstd::string::*;

use crate::config::Network;
use crate::text;

verus! {

/// The command line.
pub struct Cli {
    /// The directory that holds the node's configuration and data.
    pub dir: String,
    pub command: Commands,
}

/// What the program is to do.
pub enum Commands {
    /// Serve the node. Whatever is not given keeps its default.
    Serve {
        host: String,
        port: u16,
        db: Option<String>,
        db_encryption_key: Option<String>,
        listen_address: Option<String>,
        noise_port: Option<u16>,
        public_address: Option<String>,
        canton_admin_host: Option<String>,
        canton_admin_port: Option<u16>,
        canton_ledger_host: Option<String>,
        canton_ledger_port: Option<u16>,
        canton_admin_tls: Option<bool>,
        canton_admin_tls_ca_cert: Option<String>,
        canton_admin_tls_client_cert: Option<String>,
        canton_admin_tls_client_key: Option<String>,
        canton_admin_tls_domain: Option<String>,
        canton_ledger_tls: Option<bool>,
        canton_ledger_tls_ca_cert: Option<String>,
        canton_ledger_tls_client_cert: Option<String>,
        canton_ledger_tls_client_key: Option<String>,
        canton_ledger_tls_domain: Option<String>,
        canton_synchronizer: Option<String>,
        canton_network: Option<Network>,
        keycloak_url: Option<String>,
        keycloak_realm: Option<String>,
        keycloak_client_id: Option<String>,
        keycloak_internal_url: Option<String>,
        auth0_domain: Option<String>,
        auth0_client_id: Option<String>,
        auth0_audience: Option<String>,
        jwt_role_claim: Option<String>,
        admin_role: Option<String>,
        allowed_origin: Option<String>,
        insecure: bool,
        canton_hmac_secret: Option<String>,
        canton_hmac_audience: Option<String>,
        canton_hmac_subject: Option<String>,
        tenant_api_keys: Option<String>,
        timeout_handshake: Option<u64>,
        timeout_message: Option<u64>,
        timeout_retry_attempts: Option<u32>,
        timeout_retry_delay: Option<u64>,
        noise_retry_timeout_sec: Option<u64>,
        noise_retry_max_attempts: Option<usize>,
        noise_retry_backoff_ms: Option<u64>,
        reward_automation_interval_secs: Option<u64>,
        reward_max_creates: Option<usize>,
        reward_min_expiry_margin_secs: Option<u64>,
    },
}

/// What is wrong with a number.
#[derive(Clone, Copy, Debug, PartialEq, Eq, Structural)]
pub enum NumberError {
    Empty,
    InvalidDigit,
    TooLarge,
}

/// A decimal digit.
pub open spec fn is_digit(c: char) -> bool {
    '0' <= c <= '9'
}

/// What the digits make that follow the number `so_far`; the first digit that
/// cannot be taken decides.
pub open spec fn number_from(so_far: nat, digits: Seq<char>) -> Result<nat, NumberError>
    decreases digits.len(),
{
    if digits.len() == 0 {
        Ok(so_far)
    } else if !is_digit(digits[0]) {
        Err(NumberError::InvalidDigit)
    } else {
        let next = so_far * 10 + (digits[0] as nat - '0' as nat) as nat;
        if next > usize::MAX {
            Err(NumberError::TooLarge)
        } else {
            number_from(next, digits.drop_first())
        }
    }
}

/// The number that a text stands for: decimal digits, which a plus sign may
/// precede.
pub open spec fn number_of(s: Seq<char>) -> Result<nat, NumberError> {
    if s.len() == 0 {
        Err(NumberError::Empty)
    } else if s[0] == '+' && s.len() > 1 {
        number_from(0, s.drop_first())
    } else {
        number_from(0, s)
    }
}

/// The number that a text stands for.
pub fn read_number(s: &str) -> (n: Result<usize, NumberError>)
    ensures
        match n {
            Ok(v) => number_of(s@) == Ok::<nat, NumberError>(v as nat),
            Err(e) => number_of(s@) == Err::<nat, NumberError>(e),
        },
{
    let chars = text::chars_of(s);
    if chars.len() == 0 {
        return Err(NumberError::Empty);
    }
    let mut i: usize = if chars[0] == '+' && chars.len() > 1 {
        1
    } else {
        0
    };
    let mut value: usize = 0;
    proof {
        assert(s@.skip(0) =~= s@);
        assert(s@.skip(1) =~= s@.drop_first());
    }
    while i < chars.len()
        invariant
            i <= chars@.len(),
            chars@ == s@,
            number_of(s@) == number_from(value as nat, s@.skip(i as int)),
        decreases chars@.len() - i,
    {
        let c = chars[i];
        proof {
            assert(s@.skip(i as int)[0] == c);
            assert(s@.skip(i as int).drop_first() =~= s@.skip(i + 1));
        }
        if !('0' <= c && c <= '9') {
            return Err(NumberError::InvalidDigit);
        }
        let digit: usize = (c as u32 - '0' as u32) as usize;
        if value > usize::MAX / 10 {
            return Err(NumberError::TooLarge);
        }
        if value * 10 > usize::MAX - digit {
            return Err(NumberError::TooLarge);
        }
        value = value * 10 + digit;
        i += 1;
    }
    proof {
        assert(s@.skip(i as int).len() == 0);
    }
    Ok(value)
}

/// What an operator is told of a number.
pub open spec fn number_complaint(e: NumberError) -> Seq<char> {
    match e {
        NumberError::Empty => "cannot parse integer from empty string"@,
        NumberError::InvalidDigit => "invalid digit found in string"@,
        NumberError::TooLarge => "number too large to fit in target type"@,
    }
}

/// The number that a text stands for, where it is one and not zero; else what
/// the operator is told.
pub fn parse_positive_usize(s: &str) -> (n: Result<usize, String>)
    ensures
        match n {
            Ok(v) => v > 0 && number_of(s@) == Ok::<nat, NumberError>(v as nat),
            Err(said) => match number_of(s@) {
                Ok(v) => v == 0 && said@ == "must be >= 1"@,
                Err(e) => said@ == number_complaint(e),
            },
        },
{
    match read_number(s) {
        Ok(v) => if v == 0 {
            Err("must be >= 1".to_owned())
        } else {
            Ok(v)
        },
        Err(e) => Err(
            match e {
                NumberError::Empty => "cannot parse integer from empty string".to_owned(),
                NumberError::InvalidDigit => "invalid digit found in string".to_owned(),
                NumberError::TooLarge => "number too large to fit in target type".to_owned(),
            },
        ),
    }
}

/// A number's own decimal notation is read as the number, and accepted as a
/// positive one exactly where it is not zero.
pub proof fn law_decimal_is_read_back(n: usize)
    ensures
        number_of(text::decimal(n as nat)) == Ok::<nat, NumberError>(n as nat),
{
    let s = text::decimal(n as nat);
    lemma_decimal_digits(n as nat);
    lemma_number_of_decimal(n as nat, Seq::empty());
    assert(s + Seq::<char>::empty() =~= s);
}

/// Decimal notation is made of digits, and there is at least one.
proof fn lemma_decimal_digits(n: nat)
    ensures
        text::decimal(n).len() > 0,
        forall|i: int| 0 <= i < text::decimal(n).len() ==> is_digit(#[trigger] text::decimal(n)[i]),
    decreases n,
{
    if n >= 10 {
        lemma_decimal_digits(n / 10);
    }
}

/// Reading a number's decimal notation and then more is reading on from the
/// number.
proof fn lemma_number_of_decimal(n: nat, rest: Seq<char>)
    requires
        n <= usize::MAX,
    ensures
        number_from(0, text::decimal(n) + rest) == number_from(n, rest),
    decreases n,
{
    let s = text::decimal(n) + rest;
    if n < 10 {
        assert(s[0] == text::digit_char(n));
        assert(s.drop_first() =~= rest);
    } else {
        let last = text::digit_char(n % 10);
        let more = seq![last] + rest;
        assert(s =~= text::decimal(n / 10) + more);
        lemma_number_of_decimal(n / 10, more);
        assert(more[0] == last);
        assert(more.drop_first() =~= rest);
        assert((n / 10) * 10 + n % 10 == n);
    }
}

/// Reading on by one character.
proof fn lemma_number_pushed(so_far: nat, digits: Seq<char>, c: char)
    requires
        so_far <= usize::MAX,
    ensures
        number_from(so_far, digits.push(c)) == match number_from(so_far, digits) {
            Ok(v) => if !('0' <= c <= '9') {
                Err::<nat, NumberError>(NumberError::InvalidDigit)
            } else if v * 10 + (c as int - '0' as int) > usize::MAX {
                Err::<nat, NumberError>(NumberError::TooLarge)
            } else {
                Ok::<nat, NumberError>((v * 10 + (c as int - '0' as int)) as nat)
            },
            Err(e) => Err::<nat, NumberError>(e),
        },
    decreases digits.len(),
{
    let all = digits.push(c);
    if digits.len() == 0 {
        assert(all[0] == c);
        assert(all.drop_first().len() == 0);
        reveal_with_fuel(number_from, 2);
    } else {
        assert(all[0] == digits[0]);
        assert(all.drop_first() =~= digits.drop_first().push(c));
        if is_digit(digits[0]) {
            let next = so_far * 10 + (digits[0] as nat - '0' as nat) as nat;
            if next <= usize::MAX {
                lemma_number_pushed(next, digits.drop_first(), c);
            }
        }
    }
}

/// Each further digit makes ten times the number and itself; what is not a digit
/// spoils it, and so does a number that is too large. What is spoilt stays so.
pub proof fn law_each_digit_counts(s: Seq<char>, c: char)
    requires
        s.len() > 0,
        s != seq!['+'],
    ensures
        number_of(s.push(c)) == match number_of(s) {
            Ok(v) => if !('0' <= c <= '9') {
                Err::<nat, NumberError>(NumberError::InvalidDigit)
            } else if v * 10 + (c as int - '0' as int) > usize::MAX {
                Err::<nat, NumberError>(NumberError::TooLarge)
            } else {
                Ok::<nat, NumberError>((v * 10 + (c as int - '0' as int)) as nat)
            },
            Err(e) => Err::<nat, NumberError>(e),
        },
{
    if s[0] == '+' {
        assert(s =~= seq!['+'] || s.len() > 1);
        assert(s.push(c).drop_first() =~= s.drop_first().push(c));
        lemma_number_pushed(0, s.drop_first(), c);
    } else {
        lemma_number_pushed(0, s, c);
    }
}

/// One digit makes itself, any other character alone makes no number, and nothing
/// makes none either; a plus sign before digits makes no difference, and a second
/// one is no digit.
pub proof fn law_short_numbers(c: char, s: Seq<char>)
    ensures
        number_of(Seq::empty()) == Err::<nat, NumberError>(NumberError::Empty),
        '0' <= c <= '9' ==> number_of(seq![c]) == Ok::<nat, NumberError>(
            (c as int - '0' as int) as nat,
        ),
        !('0' <= c <= '9') ==> number_of(seq![c]) == Err::<nat, NumberError>(
            NumberError::InvalidDigit,
        ),
        s.len() > 0 && s[0] != '+' ==> number_of(seq!['+'] + s) == number_of(s),
        s.len() > 0 && s[0] == '+' ==> number_of(seq!['+'] + s) == Err::<nat, NumberError>(
            NumberError::InvalidDigit,
        ),
{
    reveal_with_fuel(number_from, 2);
    assert(seq![c].drop_first().len() == 0);
    assert((seq!['+'] + s).drop_first() =~= s);
}

/// A positive number is accepted exactly where the text is a number and not zero;
/// else the operator is told what is wrong.
pub proof fn law_positive_numbers_are_accepted(s: &str, n: Result<usize, String>)
    requires
        call_ensures(parse_positive_usize, (s,), n),
    ensures
        n is Ok <==> (number_of(s@) matches Ok(v) && v > 0),
        n matches Ok(v) ==> number_of(s@) == Ok::<nat, NumberError>(v as nat),
        number_of(s@) == Ok::<nat, NumberError>(0) ==> (n matches Err(said) && said@
            == "must be >= 1"@),
        number_of(s@) == Err::<nat, NumberError>(NumberError::Empty) ==> (n matches Err(said)
            && said@ == "cannot parse integer from empty string"@),
        number_of(s@) == Err::<nat, NumberError>(NumberError::InvalidDigit) ==> (
        n matches Err(said) && said@ == "invalid digit found in string"@),
        number_of(s@) == Err::<nat, NumberError>(NumberError::TooLarge) ==> (n matches Err(said)
            && said@ == "number too large to fit in target type"@),
{
}

} // verus!
