//! The settings that the service starts with.

use vstd::prelude::*;
use vstd::string::{StrSliceExecFns, StringExecFns};

verus! {

/// The greatest port number.
pub const MAX_PORT: u32 = 65535;

/// Where the database is looked for where the setting is missing.
pub open spec fn default_database_url() -> Seq<char> {
    "postgresql://localhost/opengraph"@
}

/// The port's text where the setting is missing.
pub open spec fn default_port_text() -> Seq<char> {
    "8080"@
}

/// Whether the character is one of the ten decimal digits.
pub open spec fn is_digit(c: char) -> bool {
    48 <= c as u32 <= 57
}

/// Whether the text holds nothing but decimal digits.
pub open spec fn all_digits(text: Seq<char>) -> bool {
    forall|i: int| 0 <= i < text.len() ==> is_digit(#[trigger] text[i])
}

/// The number that a run of decimal digits stands for.
pub open spec fn digits_value(digits: Seq<char>) -> nat
    decreases digits.len(),
{
    if digits.len() == 0 {
        0
    } else {
        (digits_value(digits.drop_last()) * 10 + (digits.last() as u32 - 48)) as nat
    }
}

/// The text without the plus sign that it may begin with.
pub open spec fn unsigned_part(text: Seq<char>) -> Seq<char> {
    if text.len() > 0 && text[0] == '+' {
        text.skip(1)
    } else {
        text
    }
}

/// The port that a text stands for: one or more decimal digits, after a plus
/// sign or without one, that make a number of at most 65535. Blanks, a minus
/// sign and any other character make the text stand for none.
pub open spec fn port_from_text(text: Seq<char>) -> Option<u16> {
    let digits = unsigned_part(text);
    if digits.len() > 0 && all_digits(digits) && digits_value(digits) <= MAX_PORT {
        Some(digits_value(digits) as u16)
    } else {
        None
    }
}

/// Digits added at the end do not make the number smaller.
pub proof fn lemma_digits_value_grows(digits: Seq<char>, n: int)
    requires
        0 <= n <= digits.len(),
        all_digits(digits),
    ensures
        digits_value(digits.take(n)) <= digits_value(digits),
    decreases digits.len() - n,
{
    if n < digits.len() {
        assert(digits.take(n + 1).drop_last() =~= digits.take(n));
        assert(digits.take(n + 1).last() == digits[n]);
        assert(is_digit(digits[n]));
        lemma_digits_value_grows(digits, n + 1);
    } else {
        assert(digits.take(n) =~= digits);
    }
}

/// What the settings are to the specifications.
pub struct ConfigModel {
    pub database_url: Seq<char>,
    pub port: u16,
}

/// Why no settings could be made.
#[derive(Debug, Clone, Copy, PartialEq, Eq, Structural)]
pub enum ConfigError {
    /// The port's text stands for no port.
    InvalidPort,
}

/// The settings: where the database is, and the port to listen on.
pub struct Config {
    pub database_url: String,
    pub port: u16,
}

impl View for Config {
    type V = ConfigModel;

    open spec fn view(&self) -> ConfigModel {
        ConfigModel { database_url: self.database_url@, port: self.port }
    }
}

/// The view of a text that may be missing.
pub open spec fn text_or(setting: Option<String>, otherwise: Seq<char>) -> Seq<char> {
    match setting {
        Some(text) => text@,
        None => otherwise,
    }
}

impl Config {
    /// Reads a port from its text.
    pub fn parse_port(text: &str) -> (port: Option<u16>)
        ensures
            port == port_from_text(text@),
    {
        let length = text.unicode_len();
        let start: usize = if length > 0 && text.get_char(0) == '+' { 1 } else { 0 };
        let ghost digits = unsigned_part(text@);
        if start == length {
            return None;
        }
        let mut value: u32 = 0;
        let mut i: usize = start;
        proof {
            assert(digits.take(0) =~= Seq::empty());
            assert(text@.skip(0) =~= text@);
        }
        while i < length
            invariant
                start <= i <= length,
                length == text@.len(),
                start <= 1,
                digits == unsigned_part(text@),
                digits == text@.skip(start as int),
                digits.len() == length - start,
                all_digits(digits.take(i - start)),
                value == digits_value(digits.take(i - start)),
                value <= MAX_PORT,
            decreases length - i,
        {
            let c = text.get_char(i);
            let code: u32 = c as u32;
            proof {
                assert(digits[i - start] == c);
                assert(digits.take(i - start + 1).drop_last() =~= digits.take(i - start));
                assert(digits.take(i - start + 1).last() == c);
            }
            if code < 48 || code > 57 {
                assert(!all_digits(digits)) by {
                    assert(!is_digit(digits[i - start]));
                }
                return None;
            }
            let next: u32 = value * 10 + (code - 48);
            proof {
                assert forall|k: int| 0 <= k < i - start + 1 implies is_digit(
                    #[trigger] digits.take(i - start + 1)[k],
                ) by {
                    if k < i - start {
                        assert(digits.take(i - start)[k] == digits.take(i - start + 1)[k]);
                    }
                }
                assert(next == digits_value(digits.take(i - start + 1)));
            }
            if next > MAX_PORT {
                proof {
                    if all_digits(digits) {
                        lemma_digits_value_grows(digits, i - start + 1);
                    }
                }
                return None;
            }
            value = next;
            i += 1;
        }
        proof {
            assert(digits.take(i - start) =~= digits);
        }
        Some(value as u16)
    }

    /// The settings that two texts from the surroundings give: the database's
    /// address and the port. A missing address stands for a database on this
    /// machine, and a missing port for 8080.
    ///
    /// Fails where the port's text stands for no port.
    pub fn from_values(
        database_url: Option<String>,
        port: Option<String>,
    ) -> (result: Result<Config, ConfigError>)
        ensures
            match result {
                Ok(config) => {
                    &&& config@.database_url == text_or(database_url, default_database_url())
                    &&& port_from_text(text_or(port, default_port_text())) == Some(config@.port)
                },
                Err(e) => port_from_text(text_or(port, default_port_text())) is None,
            },
    {
        let port_text = match port {
            Some(text) => text,
            None => String::from_str("8080"),
        };
        let database_url = match database_url {
            Some(text) => text,
            None => String::from_str("postgresql://localhost/opengraph"),
        };
        match Self::parse_port(port_text.as_str()) {
            Some(port) => Ok(Config { database_url, port }),
            None => Err(ConfigError::InvalidPort),
        }
    }
}

} // verus!
