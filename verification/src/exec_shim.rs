//! In-target process-group shim for cancellable cross-boundary execs, and
//! the parser that recovers the process-group id the shim announces.

use base64::Engine;
use vstd::prelude::*;
use vstd::string::StringSliceAdditionalSpecFns;
use crate::text::{decimal, lemma_decimal_digits, lemma_find_append, lemma_find_from_first, all_digits, chars_of, digits_value, find, find_chars, is_digit, lemma_digits_value_prefix_le, lemma_find_from_props, occurs_at};

verus! {

/// Marker that opens the PGID announcement on stderr.
pub const SENTINEL_PREFIX: &'static str = "__DCMCP_PGID=";

/// Marker that closes the PGID announcement.
pub const SENTINEL_SUFFIX: &'static str = "__";

/// Environment variable through which the shim receives the user command.
pub const USER_CMD_ENV: &'static str = "DCMCP_USER_CMD";

/// The shim script: runs `$DCMCP_USER_CMD` via `eval` in a fresh session
/// (when `setsid` exists) and first prints `__DCMCP_PGID=<pid>__` on stderr.
pub open spec fn shim_script() -> Seq<char> {
    "if command -v setsid >/dev/null 2>&1; then\n  setsid sh -c 'printf \""@ + SENTINEL_PREFIX@
        + "%s"@ + SENTINEL_SUFFIX@ + "\\n\" \"$$\" 1>&2; eval \"$"@ + USER_CMD_ENV@
        + "\"' &\n  __dcmcp_pid=$!\n  wait \"$__dcmcp_pid\"\n  exit \"$?\"\nelse\n  printf \""@
        + SENTINEL_PREFIX@ + "%s"@ + SENTINEL_SUFFIX@ + "\\n\" \"$$\" 1>&2\n  eval \"$"@
        + USER_CMD_ENV@ + "\"\nfi"@
}

/// Wrap a user-supplied shell command with the shim prelude. The command
/// itself is read from `DCMCP_USER_CMD` on the target, so no user text is
/// ever interpolated into the returned script.
pub fn wrap() -> (r: String)
    ensures
        r@ == shim_script(),
{
    let mut s = String::from_str(
        "if command -v setsid >/dev/null 2>&1; then\n  setsid sh -c 'printf \"",
    );
    s.append(SENTINEL_PREFIX);
    s.append("%s");
    s.append(SENTINEL_SUFFIX);
    s.append("\\n\" \"$$\" 1>&2; eval \"$");
    s.append(USER_CMD_ENV);
    s.append("\"' &\n  __dcmcp_pid=$!\n  wait \"$__dcmcp_pid\"\n  exit \"$?\"\nelse\n  printf \"");
    s.append(SENTINEL_PREFIX);
    s.append("%s");
    s.append(SENTINEL_SUFFIX);
    s.append("\\n\" \"$$\" 1>&2\n  eval \"$");
    s.append(USER_CMD_ENV);
    s.append("\"\nfi");
    s
}

/// A character of the standard base64 alphabet, padding included.
pub open spec fn is_base64_char(c: char) -> bool {
    ('A' <= c && c <= 'Z') || ('a' <= c && c <= 'z') || ('0' <= c && c <= '9') || c == '+'
        || c == '/' || c == '='
}

/// The digit of the standard base64 alphabet for the 6-bit value `v`:
/// `A`-`Z`, `a`-`z`, `0`-`9`, `+`, `/`.
pub open spec fn base64_digit(v: int) -> char {
    if v < 26 {
        (65 + v) as char
    } else if v < 52 {
        (97 + v - 26) as char
    } else if v < 62 {
        (48 + v - 52) as char
    } else if v == 62 {
        '+'
    } else {
        '/'
    }
}

/// The 6-bit value a digit of the standard base64 alphabet stands for.
pub open spec fn base64_value(c: char) -> int {
    if 'A' <= c && c <= 'Z' {
        c as int - 65
    } else if 'a' <= c && c <= 'z' {
        c as int - 97 + 26
    } else if '0' <= c && c <= '9' {
        c as int - 48 + 52
    } else if c == '+' {
        62
    } else {
        63
    }
}

/// The four characters that encode the 24-bit group `n`, the last `pad`
/// of them replaced by `=`.
pub open spec fn base64_quad(n: int, pad: int) -> Seq<char> {
    seq![
        base64_digit(n / 262144),
        base64_digit((n / 4096) % 64),
        if pad >= 2 { '=' } else { base64_digit((n / 64) % 64) },
        if pad >= 1 { '=' } else { base64_digit(n % 64) },
    ]
}

/// The standard base64 text of `bytes` (RFC 4648, section 4, padded):
/// each group of three bytes becomes four digits, a last group of one or
/// two bytes is padded with `=`.
pub open spec fn base64_standard(bytes: Seq<u8>) -> Seq<char>
    decreases bytes.len(),
{
    if bytes.len() == 0 {
        Seq::empty()
    } else if bytes.len() == 1 {
        base64_quad(bytes[0] * 65536, 2)
    } else if bytes.len() == 2 {
        base64_quad(bytes[0] * 65536 + bytes[1] * 256, 1)
    } else {
        base64_quad(bytes[0] * 65536 + bytes[1] * 256 + bytes[2], 0) + base64_standard(bytes.skip(3))
    }
}

/// The bytes that decoding padded base64 text `s` (`base64 -d`) gives.
pub open spec fn base64_decoded(s: Seq<char>) -> Seq<u8>
    decreases s.len(),
{
    if s.len() < 4 {
        Seq::empty()
    } else {
        let n = base64_value(s[0]) * 262144 + base64_value(s[1]) * 4096 + (if s[2] == '=' {
            0
        } else {
            base64_value(s[2]) * 64
        }) + (if s[3] == '=' {
            0
        } else {
            base64_value(s[3])
        });
        let group = if s[2] == '=' {
            seq![(n / 65536) as u8]
        } else if s[3] == '=' {
            seq![(n / 65536) as u8, ((n / 256) % 256) as u8]
        } else {
            seq![(n / 65536) as u8, ((n / 256) % 256) as u8, (n % 256) as u8]
        };
        group + base64_decoded(s.skip(4))
    }
}

proof fn lemma_base64_digit(v: int)
    requires
        0 <= v < 64,
    ensures
        base64_value(base64_digit(v)) == v,
        base64_digit(v) != '=',
        is_base64_char(base64_digit(v)),
{
}

/// Splitting a 24-bit group into four 6-bit digits and joining them again
/// gives the group back, and with it its three bytes.
proof fn lemma_base64_group(b0: int, b1: int, b2: int)
    requires
        0 <= b0 < 256,
        0 <= b1 < 256,
        0 <= b2 < 256,
    ensures
        ({
            let n = b0 * 65536 + b1 * 256 + b2;
            &&& 0 <= n / 262144 < 64
            &&& n / 262144 * 262144 + (n / 4096) % 64 * 4096 + (n / 64) % 64 * 64 + n % 64 == n
            &&& n / 65536 == b0
            &&& (n / 256) % 256 == b1
            &&& n % 256 == b2
            &&& b2 == 0 ==> n % 64 == 0
            &&& b1 == 0 && b2 == 0 ==> (n / 64) % 64 == 0
        }),
{
    let n = b0 * 65536 + b1 * 256 + b2;
    assert(0 <= n / 262144 < 64) by (nonlinear_arith)
        requires
            0 <= n < 16777216,
    ;
    assert(n / 262144 * 262144 + (n / 4096) % 64 * 4096 + (n / 64) % 64 * 64 + n % 64 == n)
        by (nonlinear_arith)
        requires
            0 <= n,
    ;
    assert(n / 65536 == b0 && (n / 256) % 256 == b1 && n % 256 == b2) by (nonlinear_arith)
        requires
            0 <= b0 < 256,
            0 <= b1 < 256,
            0 <= b2 < 256,
            n == b0 * 65536 + b1 * 256 + b2,
    ;
    assert(b2 == 0 ==> n % 64 == 0) by (nonlinear_arith)
        requires
            n == b0 * 65536 + b1 * 256 + b2,
            0 <= b0,
            0 <= b1,
    ;
    assert(b1 == 0 && b2 == 0 ==> (n / 64) % 64 == 0) by (nonlinear_arith)
        requires
            n == b0 * 65536 + b1 * 256 + b2,
            0 <= b0,
    ;
}

/// The text of a 24-bit group decodes to the bytes it was made of.
proof fn lemma_base64_quad(b0: int, b1: int, b2: int, pad: int, rest: Seq<char>)
    requires
        0 <= b0 < 256,
        0 <= b1 < 256,
        0 <= b2 < 256,
        0 <= pad <= 2,
        pad >= 1 ==> b2 == 0,
        pad >= 2 ==> b1 == 0,
    ensures
        base64_decoded(base64_quad(b0 * 65536 + b1 * 256 + b2, pad) + rest) == (if pad == 2 {
            seq![b0 as u8]
        } else if pad == 1 {
            seq![b0 as u8, b1 as u8]
        } else {
            seq![b0 as u8, b1 as u8, b2 as u8]
        }) + base64_decoded(rest),
        forall|i: int| 0 <= i < 4 ==> #[trigger] is_base64_char(base64_quad(b0 * 65536 + b1 * 256 + b2, pad)[i]),
{
    let n = b0 * 65536 + b1 * 256 + b2;
    lemma_base64_group(b0, b1, b2);
    lemma_base64_digit(n / 262144);
    lemma_base64_digit((n / 4096) % 64);
    lemma_base64_digit((n / 64) % 64);
    lemma_base64_digit(n % 64);
    let s = base64_quad(n, pad) + rest;
    assert(s.skip(4) =~= rest);
    assert(s[0] == base64_digit(n / 262144));
    assert(s[1] == base64_digit((n / 4096) % 64));
}

/// Decoding the standard base64 text of `bytes` gives `bytes` back.
pub proof fn law_base64_round_trip(bytes: Seq<u8>)
    ensures
        base64_decoded(base64_standard(bytes)) == bytes,
    decreases bytes.len(),
{
    if bytes.len() == 0 {
    } else if bytes.len() == 1 {
        lemma_base64_quad(bytes[0] as int, 0, 0, 2, Seq::empty());
        assert(base64_quad(bytes[0] * 65536, 2) + Seq::<char>::empty() =~= base64_quad(bytes[0] * 65536, 2));
        assert(bytes =~= seq![bytes[0]]);
    } else if bytes.len() == 2 {
        lemma_base64_quad(bytes[0] as int, bytes[1] as int, 0, 1, Seq::empty());
        assert(base64_quad(bytes[0] * 65536 + bytes[1] * 256, 1) + Seq::<char>::empty() =~= base64_quad(
            bytes[0] * 65536 + bytes[1] * 256,
            1,
        ));
        assert(bytes =~= seq![bytes[0], bytes[1]]);
    } else {
        law_base64_round_trip(bytes.skip(3));
        lemma_base64_quad(bytes[0] as int, bytes[1] as int, bytes[2] as int, 0, base64_standard(bytes.skip(3)));
        assert(bytes =~= seq![bytes[0], bytes[1], bytes[2]] + bytes.skip(3));
    }
}

/// Every character of the standard base64 text of `bytes` is a digit or
/// the `=` pad, and there are four of them per started group of three bytes.
pub proof fn lemma_base64_shape(bytes: Seq<u8>)
    ensures
        forall|i: int| 0 <= i < base64_standard(bytes).len() ==> #[trigger] is_base64_char(base64_standard(bytes)[i]),
        base64_standard(bytes).len() == 4 * ((bytes.len() + 2) / 3),
    decreases bytes.len(),
{
    if bytes.len() == 0 {
    } else if bytes.len() == 1 {
        lemma_base64_quad(bytes[0] as int, 0, 0, 2, Seq::empty());
    } else if bytes.len() == 2 {
        lemma_base64_quad(bytes[0] as int, bytes[1] as int, 0, 1, Seq::empty());
    } else {
        lemma_base64_shape(bytes.skip(3));
        let q = base64_quad(bytes[0] * 65536 + bytes[1] * 256 + bytes[2], 0);
        lemma_base64_quad(bytes[0] as int, bytes[1] as int, bytes[2] as int, 0, Seq::empty());
        let rest = base64_standard(bytes.skip(3));
        assert forall|i: int| 0 <= i < (q + rest).len() implies #[trigger] is_base64_char((q + rest)[i]) by {
            if i < 4 {
                assert((q + rest)[i] == q[i]);
            } else {
                assert((q + rest)[i] == rest[i - 4]);
            }
        }
    }
}

/// Longest input the encoder accepts: beyond it the encoded length would
/// not fit in a `usize`.
pub open spec fn base64_input_limit() -> int {
    (usize::MAX / 4 - 1) * 3
}

/// `base64::engine::general_purpose::STANDARD.encode`: the padded standard
/// base64 text of `bytes`. Trusted: that the engine's output is the RFC 4648
/// encoding with the standard alphabet and `=` padding, as its
/// documentation says.
#[verifier::external_body]
fn base64_encode(bytes: &[u8]) -> (r: String)
    requires
        bytes@.len() <= base64_input_limit(),
    ensures
        r@ == base64_standard(bytes@),
{
    base64::engine::general_purpose::STANDARD.encode(bytes)
}

/// The self-contained script for `user_cmd`: the command travels as a
/// base64 blob decoded on the target into `DCMCP_USER_CMD`, then the shim runs.
pub open spec fn self_contained_script(blob: Seq<char>) -> Seq<char> {
    USER_CMD_ENV@ + "=$(printf '%s' '"@ + blob + "' | base64 -d) && export "@ + USER_CMD_ENV@
        + " && "@ + shim_script()
}

/// Self-contained variant of [`wrap`] that embeds the user command as a
/// base64 blob, for transports that cannot carry environment variables.
/// The blob holds no single quote, so the command cannot break out of the
/// quoting whatever it contains.
pub fn wrap_self_contained(user_cmd: &str) -> (r: String)
    requires
        user_cmd.spec_bytes().len() <= base64_input_limit(),
    ensures
        r@ == self_contained_script(base64_standard(user_cmd.spec_bytes())),
        forall|i: int|
            0 <= i < base64_standard(user_cmd.spec_bytes()).len() ==> is_base64_char(
                #[trigger] base64_standard(user_cmd.spec_bytes())[i],
            ),
        forall|i: int|
            0 <= i < base64_standard(user_cmd.spec_bytes()).len() ==> #[trigger] base64_standard(
                user_cmd.spec_bytes(),
            )[i] != '\'',
        base64_standard(user_cmd.spec_bytes()).len() == 4 * ((user_cmd.spec_bytes().len() + 2) / 3),
        base64_decoded(base64_standard(user_cmd.spec_bytes())) == user_cmd.spec_bytes(),
{
    let encoded = base64_encode(user_cmd.as_bytes());
    proof {
        lemma_base64_shape(user_cmd.spec_bytes());
        law_base64_round_trip(user_cmd.spec_bytes());
    }
    let shim = wrap();
    let mut s = String::from_str(USER_CMD_ENV);
    s.append("=$(printf '%s' '");
    s.append(encoded.as_str());
    s.append("' | base64 -d) && export ");
    s.append(USER_CMD_ENV);
    s.append(" && ");
    s.append(shim.as_str());
    assert forall|i: int| 0 <= i < encoded@.len() implies encoded@[i] != '\'' by {
        assert(is_base64_char(encoded@[i]));
    }
    s
}

/// The process group announced by the prefix occurrence at `i`: the
/// digits between it and the next suffix, when they form a non-empty
/// decimal number that fits in an `i32`.
pub open spec fn announced_at(line: Seq<char>, i: int) -> Option<i32> {
    let after = line.skip(i + SENTINEL_PREFIX@.len());
    match find(after, SENTINEL_SUFFIX@) {
        None => None,
        Some(e) => {
            let num = after.take(e);
            if num.len() == 0 || !all_digits(num) || digits_value(num) > i32::MAX {
                None
            } else {
                Some(digits_value(num) as i32)
            }
        },
    }
}

/// The first announcement found at or after position `i`: every
/// occurrence of the prefix is tried in turn.
pub open spec fn sentinel_from(line: Seq<char>, i: int) -> Option<i32>
    decreases line.len() - i,
{
    if i < 0 || i >= line.len() {
        None
    } else if occurs_at(line, SENTINEL_PREFIX@, i) && announced_at(line, i) is Some {
        announced_at(line, i)
    } else {
        sentinel_from(line, i + 1)
    }
}

/// What the sentinel parser answers for `line`: the first well-formed
/// announcement anywhere in it.
pub open spec fn sentinel_pgid(line: Seq<char>) -> Option<i32> {
    sentinel_from(line, 0)
}

/// Positions where the prefix does not occur add nothing.
proof fn lemma_sentinel_skip(line: Seq<char>, i: int, k: int)
    requires
        0 <= i <= k,
        forall|j: int| i <= j < k ==> !occurs_at(line, SENTINEL_PREFIX@, j),
    ensures
        sentinel_from(line, i) == sentinel_from(line, k),
    decreases k - i,
{
    if i < k {
        lemma_sentinel_skip(line, i + 1, k);
    }
}

/// Past the last place the prefix fits there is no announcement.
proof fn lemma_sentinel_none_after(line: Seq<char>, i: int)
    requires
        0 <= i,
        forall|j: int| i <= j ==> !occurs_at(line, SENTINEL_PREFIX@, j),
    ensures
        sentinel_from(line, i) is None,
    decreases line.len() - i,
{
    if i < line.len() {
        lemma_sentinel_none_after(line, i + 1);
    }
}

/// The announcement of the prefix occurrence at `i`.
fn announced_at_exec(s: &Vec<char>, i: usize) -> (r: Option<i32>)
    requires
        occurs_at(s@, SENTINEL_PREFIX@, i as int),
    ensures
        r == announced_at(s@, i as int),
{
    proof {
        reveal_strlit("__DCMCP_PGID=");
        reveal_strlit("__");
    }
    let prefix_len: usize = 13;
    let suffix = chars_of(SENTINEL_SUFFIX);
    assert(SENTINEL_PREFIX@.len() == 13);
    assert(i + SENTINEL_PREFIX@.len() <= s@.len());
    assert(i + 13 <= s.len());
    let start = i + prefix_len;
    let mut after: Vec<char> = Vec::new();
    let mut k = start;
    while k < s.len()
        invariant
            start <= k <= s@.len(),
            after@ == s@.subrange(start as int, k as int),
        decreases s@.len() - k,
    {
        after.push(s[k]);
        k = k + 1;
        assert(after@ == s@.subrange(start as int, k as int));
    }
    assert(after@ == s@.skip(start as int));
    let e = match find_chars(&after, &suffix, 0) {
        Some(e) => e,
        None => return None,
    };
    proof { lemma_find_from_props(after@, suffix@, 0); }
    if e == 0 {
        return None;
    }
    let ghost num = after@.take(e as int);
    assert(announced_at(s@, i as int) == (if all_digits(num) && digits_value(num) <= i32::MAX {
        Some(digits_value(num) as i32)
    } else {
        None
    }));
    let mut value: u64 = 0;
    let mut j: usize = 0;
    while j < e
        invariant
            e <= after@.len(),
            num == after@.take(e as int),
            announced_at(s@, i as int) == (if all_digits(num) && digits_value(num) <= i32::MAX {
                Some(digits_value(num) as i32)
            } else {
                None
            }),
            j <= e,
            all_digits(num.take(j as int)),
            value == digits_value(num.take(j as int)),
            value <= i32::MAX,
        decreases e - j,
    {
        let c = after[j];
        if !('0' <= c && c <= '9') {
            assert(!is_digit(num[j as int]));
            return None;
        }
        let d = (c as u32 - '0' as u32) as u64;
        assert(num.take(j + 1).drop_last() == num.take(j as int));
        value = value * 10 + d;
        if value > 2147483647 {
            proof { lemma_digits_value_prefix_le(num, j + 1); }
            return None;
        }
        j = j + 1;
        assert(all_digits(num.take(j as int))) by {
            assert forall|t: int| 0 <= t < j implies #[trigger] is_digit(num.take(j as int)[t]) by {
                if t < j - 1 {
                    assert(num.take(j as int)[t] == num.take(j - 1)[t]);
                }
            }
        }
    }
    assert(num.take(e as int) == num);
    Some(value as i32)
}

/// If `line` contains the shim's sentinel, return the captured PGID: every
/// occurrence of the prefix is tried, the first well-formed one answers.
pub fn try_parse_sentinel(line: &str) -> (r: Option<i32>)
    ensures
        r == sentinel_pgid(line@),
{
    let s = chars_of(line);
    let prefix = chars_of(SENTINEL_PREFIX);
    let mut i: usize = 0;
    while i <= s.len()
        invariant
            s@ == line@,
            prefix@ == SENTINEL_PREFIX@,
            i <= s@.len() + 1,
            sentinel_pgid(line@) == sentinel_from(s@, i as int),
        decreases s@.len() + 1 - i,
    {
        let j = match find_chars(&s, &prefix, i) {
            Some(j) => j,
            None => {
                proof {
                    lemma_find_from_props(s@, prefix@, i as int);
                    lemma_sentinel_none_after(s@, i as int);
                }
                return None;
            },
        };
        proof {
            lemma_find_from_props(s@, prefix@, i as int);
            lemma_sentinel_skip(s@, i as int, j as int);
        }
        assert(j < s@.len()) by {
            reveal_strlit("__DCMCP_PGID=");
        }
        match announced_at_exec(&s, j) {
            Some(v) => {
                return Some(v);
            },
            None => {},
        }
        i = j + 1;
    }
    None
}

/// The announcement line the shim prints, `__DCMCP_PGID=<pgid>__`, is
/// recovered by the parser whatever decoration a transport puts in front of
/// it (as long as the decoration does not itself hold the prefix) and
/// whatever follows it on the line.
pub proof fn law_announced_pgid_is_recovered(decoration: Seq<char>, pgid: i32, rest: Seq<char>)
    requires
        pgid >= 0,
        find(decoration + SENTINEL_PREFIX@, SENTINEL_PREFIX@) == Some(decoration.len() as int),
    ensures
        sentinel_pgid(
            decoration + SENTINEL_PREFIX@ + decimal(pgid as nat) + SENTINEL_SUFFIX@ + rest,
        ) == Some(pgid),
{
    reveal_strlit("__DCMCP_PGID=");
    reveal_strlit("__");
    let p = SENTINEL_PREFIX@;
    let s = SENTINEL_SUFFIX@;
    let dec = decimal(pgid as nat);
    lemma_decimal_digits(pgid as nat);
    let a = decoration + p;
    let tail = dec + s + rest;
    let line = decoration + p + dec + s + rest;
    assert(line =~= a + tail);
    lemma_find_append(a, tail, p);
    assert(line.skip((decoration.len() + p.len()) as int) =~= tail);
    assert(occurs_at(tail, s, dec.len() as int)) by {
        assert(tail.subrange(dec.len() as int, (dec.len() + s.len()) as int) =~= s);
    }
    assert forall|j: int| 0 <= j < dec.len() implies !occurs_at(tail, s, j) by {
        assert(is_digit(dec[j]));
        assert(tail[j] == dec[j]);
        if occurs_at(tail, s, j) {
            assert(tail.subrange(j, j + s.len())[0] == s[0]);
        }
    }
    lemma_find_from_first(tail, s, 0, dec.len() as int);
    assert(tail.take(dec.len() as int) =~= dec);
    lemma_find_from_props(line, p, 0);
    lemma_sentinel_skip(line, 0, decoration.len() as int);
    assert(announced_at(line, decoration.len() as int) == Some(pgid));
}

} // verus!
