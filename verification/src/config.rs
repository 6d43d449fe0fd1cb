//! Settings, as they are written in the environment.
//!
//! The functions take what was found under a name, or `None` where nothing
//! readable was.

use vstd::prelude::*;

verus! {

pub const ENV_GLOBAL_SHM_PATH: &'static str = "NPU_GLOBAL_SHM_PATH";

pub const ENV_LOCAL_SHM_PATH: &'static str = "NPU_LOCAL_SHM_PATH";

pub const ENV_PRIORITY: &'static str = "NPU_PRIORITY";

pub const ENV_MEM_QUOTA_MB: &'static str = "NPU_MEM_QUOTA";

pub const ENV_FIXED_SHARE_RATIO: &'static str = "NPU_FIXED_SHARE_RATIO";

pub const DEFAULT_LOCAL_SHMEM_PATH: &'static str = "/tmp/vnpu_local_shmem";

/// No limit on device memory.
pub const DEFAULT_MEM_QUOTA_MB: u64 = 0;

/// Device memory, in MiB, that is kept back when free memory is reported.
pub const VIRTUAL_OVERHEAD_MB: u64 = 128;

/// What a manager is configured with.
#[derive(Debug, Clone)]
pub struct ManagerConfig {
    pub global_shm_path: String,
    pub local_shm_path: String,
    /// The priority as it is written. It is a decimal fraction.
    pub priority: Option<String>,
    pub memory_limit_mb: u64,
}

/// The number that a sequence of decimal digits denotes.
pub open spec fn digits_value(digits: Seq<char>) -> nat
    decreases digits.len(),
{
    if digits.len() == 0 {
        0
    } else {
        digits_value(digits.drop_last()) * 10 + (digits.last() as nat - '0' as nat) as nat
    }
}

/// Whether every character is a decimal digit.
pub open spec fn all_digits(text: Seq<char>) -> bool {
    forall|i: int| 0 <= i < text.len() ==> '0' <= #[trigger] text[i] <= '9'
}

/// The number that a text denotes: one or more decimal digits, with at most one
/// plus sign in front, of a value that fits in 64 bits.
pub open spec fn decimal(text: Seq<char>) -> Option<u64> {
    let digits = if text.len() > 0 && text[0] == '+' {
        text.skip(1)
    } else {
        text
    };
    if digits.len() > 0 && all_digits(digits) && digits_value(digits) <= u64::MAX {
        Some(digits_value(digits) as u64)
    } else {
        None
    }
}

/// The lower-case form of an ASCII letter; other characters stay.
pub open spec fn ascii_lower(c: char) -> char {
    if 'A' <= c <= 'Z' {
        (c as u32 + 32) as char
    } else {
        c
    }
}

/// Whether a text reads `1`, or `true` in any mix of upper and lower case.
pub open spec fn reads_true(text: Seq<char>) -> bool {
    text =~= seq!['1'] || text.map_values(|c: char| ascii_lower(c)) =~= seq!['t', 'r', 'u', 'e']
}

proof fn lemma_prefix_value(digits: Seq<char>, n: int)
    requires
        0 <= n <= digits.len(),
    ensures
        digits_value(digits.take(n)) <= digits_value(digits),
    decreases digits.len(),
{
    if n == digits.len() {
        assert(digits.take(n) =~= digits);
    } else {
        lemma_prefix_value(digits.drop_last(), n);
        assert(digits.drop_last().take(n) =~= digits.take(n));
    }
}

/// The characters of a text.
pub(crate) fn characters(text: &str) -> (chars: Vec<char>)
    ensures
        chars@ == text@,
{
    let mut chars: Vec<char> = Vec::new();
    for c in it: text.chars()
        invariant
            chars@ == text@.take(it.index() as int),
            it.seq() == text@,
    {
        chars.push(c);
    }
    chars
}

/// Reads a number.
pub fn parse_decimal(text: &str) -> (number: Option<u64>)
    ensures
        number == decimal(text@),
{
    let chars = characters(text);
    let start: usize = if chars.len() > 0 && chars[0] == '+' { 1 } else { 0 };
    let ghost digits = if text@.len() > 0 && text@[0] == '+' { text@.skip(1) } else { text@ };
    assert(digits =~= text@.skip(start as int));
    if chars.len() == start {
        return None;
    }
    let mut value: u64 = 0;
    let mut i: usize = start;
    while i < chars.len()
        invariant
            start <= i <= chars.len(),
            chars@ == text@,
            digits == text@.skip(start as int),
            digits.len() > 0,
            decimal(text@) == (if all_digits(digits) && digits_value(digits) <= u64::MAX {
                Some(digits_value(digits) as u64)
            } else {
                None
            }),
            forall|j: int| 0 <= j < i - start ==> '0' <= #[trigger] digits[j] <= '9',
            value == digits_value(digits.take(i - start)),
        decreases chars.len() - i,
    {
        let c = chars[i];
        assert(c == digits[i - start]);
        if c < '0' || '9' < c {
            return None;
        }
        let next: u128 = value as u128 * 10 + (c as u32 - '0' as u32) as u128;
        assert(digits.take(i + 1 - start).drop_last() =~= digits.take(i - start));
        if next > u64::MAX as u128 {
            proof {
                lemma_prefix_value(digits, i + 1 - start);
            }
            return None;
        }
        value = next as u64;
        i = i + 1;
    }
    assert(digits.take(i - start) =~= digits);
    Some(value)
}

/// The number of a setting, or the default where there is none to read.
pub open spec fn setting(value: Option<String>, default: u64) -> u64 {
    match value {
        Some(text) => match decimal(text@) {
            Some(n) => n,
            None => default,
        },
        None => default,
    }
}

/// Reads a number, or takes the default where there is none to read.
pub fn parse_u64(value: Option<String>, default: u64) -> (number: u64)
    ensures
        number == match value {
            Some(text) => match decimal(text@) {
                Some(n) => n,
                None => default,
            },
            None => default,
        },
        number == setting(value, default),
{
    match value {
        Some(text) => match parse_decimal(text.as_str()) {
            Some(n) => n,
            None => default,
        },
        None => default,
    }
}

/// Whether fixed shares are asked for.
pub fn fixed_share_ratio(value: Option<String>) -> (fixed: bool)
    ensures
        fixed == (value is Some && reads_true(value->0@)),
{
    match value {
        Some(text) => {
            let chars = characters(text.as_str());
            let ghost lower = text@.map_values(|c: char| ascii_lower(c));
            if chars.len() == 1 {
                assert(lower.len() == 1);
                chars[0] == '1'
            } else if chars.len() == 4 {
                assert(lower.len() == 4);
                (chars[0] == 't' || chars[0] == 'T') && (chars[1] == 'r' || chars[1] == 'R') && (
                chars[2] == 'u' || chars[2] == 'U') && (chars[3] == 'e' || chars[3] == 'E')
            } else {
                false
            }
        },
        None => false,
    }
}

/// Where the local segment is found.
pub fn local_shmem_path(value: Option<String>) -> (path: String)
    ensures
        path@ == match value {
            Some(text) => text@,
            None => DEFAULT_LOCAL_SHMEM_PATH@,
        },
{
    match value {
        Some(text) => text,
        None => DEFAULT_LOCAL_SHMEM_PATH.to_owned(),
    }
}

impl ManagerConfig {
    /// Puts a configuration together. Only the path of the global registry has
    /// no default: without it the result is a message that names the variable.
    pub fn from_env(
        global_shm_path: Option<String>,
        local_shm_path: Option<String>,
        priority: Option<String>,
        memory_quota_mb: Option<String>,
    ) -> (config: Result<ManagerConfig, String>)
        ensures
            match config {
                Ok(c) => {
                    &&& global_shm_path == Some(c.global_shm_path)
                    &&& c.local_shm_path@ == match local_shm_path {
                        Some(text) => text@,
                        None => DEFAULT_LOCAL_SHMEM_PATH@,
                    }
                    &&& c.priority == priority
                    &&& c.memory_limit_mb == match memory_quota_mb {
                        Some(text) => match decimal(text@) {
                            Some(n) => n,
                            None => DEFAULT_MEM_QUOTA_MB,
                        },
                        None => DEFAULT_MEM_QUOTA_MB,
                    }
                    &&& c.memory_limit_mb == setting(memory_quota_mb, 0)
                },
                Err(message) => {
                    &&& global_shm_path is None
                    &&& message@ == "Missing environment variable: "@ + ENV_GLOBAL_SHM_PATH@
                },
            },
    {
        match global_shm_path {
            Some(path) => Ok(
                ManagerConfig {
                    global_shm_path: path,
                    local_shm_path: self::local_shmem_path(local_shm_path),
                    priority,
                    memory_limit_mb: parse_u64(memory_quota_mb, DEFAULT_MEM_QUOTA_MB),
                },
            ),
            None => {
                let mut message = "Missing environment variable: ".to_owned();
                message.append(ENV_GLOBAL_SHM_PATH);
                Err(message)
            },
        }
    }
}

/// Which texts denote a number: no sign alone, no empty text, and none with a
/// character other than a digit, but for a plus sign in front.
pub proof fn law_only_digits_denote(text: Seq<char>, i: int)
    requires
        0 <= i < text.len(),
        (text[i] as u32) < 48 || 57 < text[i] as u32,
        i > 0 || text[i] != '+' || text.len() == 1,
    ensures
        decimal(text) is None,
        decimal(Seq::<char>::empty()) is None,
{
    if text[0] == '+' {
        if i > 0 {
            assert(text.skip(1)[i - 1] == text[i]);
        }
    }
}

/// What digits denote: one digit its value, and a further digit behind a number ten
/// times as much and its value, as long as 64 bits hold that.
pub proof fn law_digits_denote(text: Seq<char>, c: char)
    requires
        48 <= c as u32 <= 57,
    ensures
        decimal(seq![c]) == Some((c as u32 - 48) as u64),
        decimal(text) matches Some(n) ==> decimal(text.push(c)) == if n * 10 + (c as u32 - 48)
            <= 0xFFFF_FFFF_FFFF_FFFF {
            Some((n * 10 + (c as u32 - 48)) as u64)
        } else {
            None
        },
        decimal(text) is None && text.len() > 0 && text != seq!['+'] ==> decimal(
            text.push(c),
        ) is None,
{
    assert(seq![c].drop_last() =~= Seq::<char>::empty());
    assert(digits_value(Seq::<char>::empty()) == 0);
    let longer = text.push(c);
    let digits = if text.len() > 0 && text[0] == '+' {
        text.skip(1)
    } else {
        text
    };
    if text.len() > 0 {
        assert(longer[0] == text[0]);
        assert(longer.skip(1) =~= text.skip(1).push(c));
        assert(digits.push(c).drop_last() =~= digits);
        assert(digits.push(c).last() == c);
        if digits.len() == 0 {
            assert(text =~= seq!['+']);
        } else if all_digits(digits.push(c)) {
            assert forall|i: int| 0 <= i < digits.len() implies '0' <= #[trigger] digits[i]
                <= '9' by {
                assert(digits.push(c)[i] == digits[i]);
            }
        }
        if all_digits(digits) {
            assert forall|i: int| 0 <= i < digits.push(c).len() implies '0'
                <= #[trigger] digits.push(c)[i] <= '9' by {
                if i < digits.len() {
                    assert(digits.push(c)[i] == digits[i]);
                }
            }
        }
    }
}

/// A plus sign in front of an unsigned text makes no difference.
pub proof fn law_plus_sign_is_passed_over(text: Seq<char>)
    requires
        text.len() == 0 || text[0] != '+',
    ensures
        decimal(seq!['+'] + text) == decimal(text),
{
    assert((seq!['+'] + text).skip(1) =~= text);
}

/// Fixed shares are asked for by `1`, and by four letters that spell `true`, each in
/// either case; by nothing else.
pub proof fn law_truth_is_spelled(text: Seq<char>)
    ensures
        text.len() == 1 ==> reads_true(text) == (text[0] == '1'),
        text.len() == 4 ==> reads_true(text) == ((text[0] == 't' || text[0] == 'T') && (text[1]
            == 'r' || text[1] == 'R') && (text[2] == 'u' || text[2] == 'U') && (text[3] == 'e'
            || text[3] == 'E')),
        text.len() != 1 && text.len() != 4 ==> !reads_true(text),
{
    let lower = text.map_values(|c: char| ascii_lower(c));
    assert(lower.len() == text.len());
    if text.len() == 1 {
        assert(text[0] == '1' ==> text =~= seq!['1']);
    }
    if text.len() == 4 {
        assert forall|i: int| 0 <= i < 4 implies #[trigger] lower[i] == ascii_lower(text[i]) by {}
        if (text[0] == 't' || text[0] == 'T') && (text[1] == 'r' || text[1] == 'R') && (text[2]
            == 'u' || text[2] == 'U') && (text[3] == 'e' || text[3] == 'E') {
            assert(lower =~= seq!['t', 'r', 'u', 'e']);
        }
    }
}

/// Without a setting, or with one that is no number, the default holds.
pub proof fn law_default_stands_in(text: String, default: u64)
    ensures
        setting(None, default) == default,
        decimal(text@) is None ==> setting(Some(text), default) == default,
        decimal(text@) matches Some(n) ==> setting(Some(text), default) == n,
{
}

/// Without a setting for it, device memory is not limited.
pub proof fn law_no_limit_by_default()
    ensures
        setting(None, DEFAULT_MEM_QUOTA_MB) == 0,
{
}

} // verus!
