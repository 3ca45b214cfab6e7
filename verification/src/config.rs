//! Startup configuration: validation of the raw values handed in by the
//! process boundary, with defaults for the optional ones.

use vstd::prelude::*;
use vstd::string::StrSliceExecFns;
use vstd::string::StringExecFns;

use crate::errors::ConfigError;

verus! {

/// A decimal digit.
pub open spec fn spec_is_digit(c: char) -> bool {
    48 <= c as u32 <= 57
}

/// Every character is a decimal digit.
pub open spec fn spec_all_digits(s: Seq<char>) -> bool {
    forall|i: int| 0 <= i < s.len() ==> spec_is_digit(#[trigger] s[i])
}

/// The value of a digit string, most significant first.
pub open spec fn spec_digits_val(s: Seq<char>) -> int
    decreases s.len(),
{
    if s.len() == 0 {
        0
    } else {
        spec_digits_val(s.drop_last()) * 10 + (s.last() as u32 - 48)
    }
}

/// What parsing an unsigned decimal accepts: an optional leading plus sign,
/// then at least one digit, with the value within range.
pub open spec fn spec_parse_u64(s: Seq<char>) -> Option<u64> {
    let digits = if s.len() > 0 && s[0] == '+' {
        s.skip(1)
    } else {
        s
    };
    if digits.len() > 0 && spec_all_digits(digits) && spec_digits_val(digits) <= u64::MAX {
        Some(spec_digits_val(digits) as u64)
    } else {
        None
    }
}

/// A digit string's value never goes down as it is read left to right.
proof fn lemma_digits_val_mono(s: Seq<char>, m: int)
    requires
        spec_all_digits(s),
        0 <= m <= s.len(),
    ensures
        spec_digits_val(s.take(m)) >= 0,
        spec_digits_val(s) >= spec_digits_val(s.take(m)),
    decreases s.len(),
{
    if s.len() == 0 {
        assert(s.take(m) =~= s);
    } else if m == s.len() {
        assert(s.take(m) =~= s);
        lemma_digits_val_mono(s.drop_last(), m - 1);
        assert(s.take(m - 1) =~= s.drop_last());
    } else {
        let dl = s.drop_last();
        assert(spec_all_digits(dl)) by {
            assert(forall|i: int| 0 <= i < dl.len() ==> dl[i] == s[i]);
        }
        assert(s.take(m) =~= dl.take(m));
        lemma_digits_val_mono(dl, m);
        assert(spec_digits_val(s) == spec_digits_val(dl) * 10 + (s.last() as u32 - 48));
        lemma_digits_val_mono(dl, dl.len() as int);
        assert(dl.take(dl.len() as int) =~= dl);
        assert(spec_digits_val(dl) >= 0);
        assert(spec_digits_val(s) >= spec_digits_val(dl));
    }
}

/// Parses an unsigned decimal: an optional leading plus sign, then one or
/// more digits; `None` on an empty number, a foreign character, or a value
/// over the type's range.
#[verifier::loop_isolation(false)]
pub fn parse_u64(s: &str) -> (r: Option<u64>)
    ensures
        r == spec_parse_u64(s@),
{
    let len = s.unicode_len();
    let first: usize = if len > 0 && s.get_char(0) == '+' {
        1
    } else {
        0
    };
    let ghost digits = s@.skip(first as int);
    proof {
        if first == 0 {
            assert(digits =~= s@);
        }
    }
    if len == first {
        return None;
    }
    let mut val: u64 = 0;
    let mut j: usize = first;
    while j < len
        invariant
            first <= j <= len,
            spec_all_digits(digits.take(j - first)),
            val == spec_digits_val(digits.take(j - first)),
        decreases len - j,
    {
        let c = s.get_char(j);
        let d = c as u32;
        proof {
            assert(digits[j - first] == s@[j as int]);
        }
        if d < 48 || d > 57 {
            proof {
                assert(!spec_is_digit(digits[j - first]));
            }
            return None;
        }
        let ghost scanned = digits.take(j + 1 - first);
        proof {
            assert(scanned.drop_last() =~= digits.take(j - first));
            assert(scanned.last() == digits[j - first]);
            assert(spec_all_digits(scanned)) by {
                assert(forall|i: int|
                    0 <= i < scanned.len() - 1 ==> scanned[i] == digits.take(j - first)[i]);
            }
        }
        if val > 1844674407370955161u64 {
            proof {
                assert(spec_digits_val(scanned) > u64::MAX);
                if spec_all_digits(digits) {
                    lemma_digits_val_mono(digits, j + 1 - first);
                }
            }
            return None;
        }
        let v10 = val * 10;
        let d8 = (d - 48) as u64;
        if d8 > u64::MAX - v10 {
            proof {
                assert(spec_digits_val(scanned) > u64::MAX);
                if spec_all_digits(digits) {
                    lemma_digits_val_mono(digits, j + 1 - first);
                }
            }
            return None;
        }
        val = v10 + d8;
        j = j + 1;
    }
    proof {
        assert(digits.take(len - first) =~= digits);
    }
    Some(val)
}

/// The validated startup configuration.
#[derive(Debug)]
pub struct Config {
    /// Credential for the remote notification feed.
    pub github_token: String,
    /// Credential for the messaging sink.
    pub telegram_bot_token: String,
    /// Recipient at the messaging sink.
    pub telegram_chat_id: String,
    /// Seconds between poll cycles, always positive.
    pub poll_interval_secs: u64,
    /// Transport timeout in seconds, always positive.
    pub http_timeout_secs: u64,
    /// Connection string of the dedup store.
    pub database_url: String,
}

/// The value an interval setting takes: its default when the variable is
/// absent, otherwise its parse. A variable that is set but holds no number
/// (the empty string included) parses to nothing and is a fault.
pub open spec fn spec_interval_value(raw: Option<Seq<char>>, default: u64) -> Option<u64> {
    match raw {
        None => Some(default),
        Some(s) => spec_parse_u64(s),
    }
}

/// The character view of an optional raw value.
pub open spec fn spec_raw_view(raw: Option<&str>) -> Option<Seq<char>> {
    match raw {
        None => None,
        Some(s) => Some(s@),
    }
}

/// The first configuration fault, checked in a fixed order; `None` when the
/// values are acceptable.
pub open spec fn spec_config_fault(
    github_token: Seq<char>,
    telegram_bot_token: Seq<char>,
    telegram_chat_id: Seq<char>,
    poll_interval_raw: Option<Seq<char>>,
    http_timeout_raw: Option<Seq<char>>,
) -> Option<ConfigError> {
    if github_token.len() == 0 {
        Some(ConfigError::MissingGithubToken)
    } else if telegram_bot_token.len() == 0 {
        Some(ConfigError::MissingTelegramBotToken)
    } else if telegram_chat_id.len() == 0 {
        Some(ConfigError::MissingTelegramChatId)
    } else if spec_interval_value(poll_interval_raw, 60) is None {
        Some(ConfigError::InvalidPollInterval)
    } else if spec_interval_value(http_timeout_raw, 15) is None {
        Some(ConfigError::InvalidHttpTimeout)
    } else if spec_interval_value(poll_interval_raw, 60) == Some(0u64) {
        Some(ConfigError::PollIntervalZero)
    } else if spec_interval_value(http_timeout_raw, 15) == Some(0u64) {
        Some(ConfigError::HttpTimeoutZero)
    } else {
        None
    }
}

/// Validates the raw startup values (whitespace already trimmed by the
/// process boundary) and builds the configuration. A credential or the
/// connection string that is absent or empty counts as missing or takes its
/// default; the two interval settings distinguish the cases: an absent
/// variable (`None`) takes its default — 60 s for the poll interval, 15 s
/// for the transport timeout — while one that is set must parse, so a
/// set-but-empty variable is invalid. Both intervals must be positive.
pub fn load_config(
    github_token: &str,
    telegram_bot_token: &str,
    telegram_chat_id: &str,
    poll_interval_raw: Option<&str>,
    http_timeout_raw: Option<&str>,
    database_url: &str,
) -> (r: Result<Config, ConfigError>)
    ensures
        ({
            let fault = spec_config_fault(
                github_token@,
                telegram_bot_token@,
                telegram_chat_id@,
                spec_raw_view(poll_interval_raw),
                spec_raw_view(http_timeout_raw),
            );
            &&& (r matches Err(e) ==> fault == Some(e))
            &&& (r is Ok <==> fault is None)
            &&& (r matches Ok(c) ==> {
                &&& c.github_token@ == github_token@
                &&& c.telegram_bot_token@ == telegram_bot_token@
                &&& c.telegram_chat_id@ == telegram_chat_id@
                &&& Some(c.poll_interval_secs) == spec_interval_value(
                    spec_raw_view(poll_interval_raw),
                    60,
                )
                &&& c.poll_interval_secs > 0
                &&& Some(c.http_timeout_secs) == spec_interval_value(
                    spec_raw_view(http_timeout_raw),
                    15,
                )
                &&& c.http_timeout_secs > 0
                &&& c.database_url@ == (if database_url@.len() == 0 {
                    "sqlite://./data/notify.db"@
                } else {
                    database_url@
                })
            })
        }),
{
    if github_token.unicode_len() == 0 {
        return Err(ConfigError::MissingGithubToken);
    }
    if telegram_bot_token.unicode_len() == 0 {
        return Err(ConfigError::MissingTelegramBotToken);
    }
    if telegram_chat_id.unicode_len() == 0 {
        return Err(ConfigError::MissingTelegramChatId);
    }
    let poll_interval_secs: u64 = match poll_interval_raw {
        None => 60,
        Some(raw) => match parse_u64(raw) {
            Some(v) => v,
            None => {
                return Err(ConfigError::InvalidPollInterval);
            },
        },
    };
    let http_timeout_secs: u64 = match http_timeout_raw {
        None => 15,
        Some(raw) => match parse_u64(raw) {
            Some(v) => v,
            None => {
                return Err(ConfigError::InvalidHttpTimeout);
            },
        },
    };
    if poll_interval_secs == 0 {
        return Err(ConfigError::PollIntervalZero);
    }
    if http_timeout_secs == 0 {
        return Err(ConfigError::HttpTimeoutZero);
    }
    let database_url_owned: String = if database_url.unicode_len() == 0 {
        String::from_str("sqlite://./data/notify.db")
    } else {
        database_url.to_owned()
    };
    Ok(
        Config {
            github_token: github_token.to_owned(),
            telegram_bot_token: telegram_bot_token.to_owned(),
            telegram_chat_id: telegram_chat_id.to_owned(),
            poll_interval_secs,
            http_timeout_secs,
            database_url: database_url_owned,
        },
    )
}

} // verus!
