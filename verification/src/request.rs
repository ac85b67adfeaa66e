//! The client-to-server request grammar: one JSON value per line. Three
//! forms are understood: the string `"ping"`, an object naming a command,
//! and an object giving `pitch` and `yaw` move rates. Anything else is
//! dropped. Numbers are read into millionths of full scale; magnitudes
//! beyond a billion saturate.

use vstd::prelude::*;
use vstd::string::{is_ascii, is_ascii_spec_bytes};
use crate::json::lit_bytes;
use crate::types::{Command, MessageContent};

verus! {

/// JSON whitespace.
pub open spec fn is_ws(b: u8) -> bool {
    b == 0x20 || b == 0x09 || b == 0x0a || b == 0x0d
}

/// An ASCII decimal digit.
pub open spec fn is_digit(b: u8) -> bool {
    0x30 <= b <= 0x39
}

/// The first position at or after `i` that does not hold whitespace.
pub open spec fn skip_ws(s: Seq<u8>, i: int) -> int
    recommends
        0 <= i <= s.len(),
    decreases s.len() - i,
{
    if 0 <= i < s.len() && is_ws(s[i]) {
        skip_ws(s, i + 1)
    } else {
        i
    }
}

proof fn lemma_skip_ws_bounds(s: Seq<u8>, i: int)
    requires
        0 <= i <= s.len(),
    ensures
        i <= skip_ws(s, i) <= s.len(),
    decreases s.len() - i,
{
    if i < s.len() && is_ws(s[i]) {
        lemma_skip_ws_bounds(s, i + 1);
    }
}

/// Advances past whitespace.
pub fn skip_ws_at(s: &[u8], i: usize) -> (j: usize)
    requires
        i <= s@.len(),
    ensures
        j == skip_ws(s@, i as int),
        i <= j <= s@.len(),
{
    let n = s.len();
    let mut j = i;
    while j < n && (s[j] == 0x20 || s[j] == 0x09 || s[j] == 0x0a || s[j] == 0x0d)
        invariant
            i <= j <= n,
            n == s@.len(),
            skip_ws(s@, i as int) == skip_ws(s@, j as int),
        decreases n - j,
    {
        j = j + 1;
    }
    j
}

/// The first position at or after `i` that does not hold a digit.
pub open spec fn digits_end(s: Seq<u8>, i: int) -> int
    recommends
        0 <= i <= s.len(),
    decreases s.len() - i,
{
    if 0 <= i < s.len() && is_digit(s[i]) {
        digits_end(s, i + 1)
    } else {
        i
    }
}

proof fn lemma_digits_end_bounds(s: Seq<u8>, i: int)
    requires
        0 <= i <= s.len(),
    ensures
        i <= digits_end(s, i) <= s.len(),
        forall|k: int| i <= k < digits_end(s, i) ==> is_digit(s[k]),
    decreases s.len() - i,
{
    if i < s.len() && is_digit(s[i]) {
        lemma_digits_end_bounds(s, i + 1);
    }
}

/// Advances past digits.
pub fn digits_end_at(s: &[u8], i: usize) -> (j: usize)
    requires
        i <= s@.len(),
    ensures
        j == digits_end(s@, i as int),
        i <= j <= s@.len(),
{
    let n = s.len();
    let mut j = i;
    while j < n && 0x30 <= s[j] && s[j] <= 0x39
        invariant
            i <= j <= n,
            n == s@.len(),
            digits_end(s@, i as int) == digits_end(s@, j as int),
        decreases n - j,
    {
        j = j + 1;
    }
    j
}

/// The value of the digits in `s[i..j)`.
pub open spec fn digits_value(s: Seq<u8>, i: int, j: int) -> nat
    recommends
        0 <= i <= j <= s.len(),
    decreases j - i,
{
    if i >= j {
        0
    } else {
        digits_value(s, i, j - 1) * 10 + ((s[j - 1] - 0x30) as nat)
    }
}

/// The integer part of a number, saturated: the digit value when it is below
/// a billion, a billion otherwise.
pub open spec fn sat_digits_value(s: Seq<u8>, i: int, j: int) -> nat {
    if digits_value(s, i, j) > 999_999_999 {
        1_000_000_000
    } else {
        digits_value(s, i, j)
    }
}

/// Reads the digit run `s[i..j)` with saturation at a billion.
pub fn read_sat_digits(s: &[u8], i: usize, j: usize) -> (v: u64)
    requires
        i <= j <= s@.len(),
        forall|k: int| i <= k < j ==> is_digit(s@[k]),
    ensures
        v == sat_digits_value(s@, i as int, j as int),
{
    let mut v: u64 = 0;
    let mut k = i;
    while k < j
        invariant
            i <= k <= j <= s@.len(),
            forall|m: int| i <= m < j ==> is_digit(s@[m]),
            v == sat_digits_value(s@, i as int, k as int),
            v <= 1_000_000_000,
        decreases j - k,
    {
        let d = (s[k] - 0x30) as u64;
        if v <= 999_999_999 {
            let next = v * 10 + d;
            if next > 999_999_999 {
                v = 1_000_000_000;
            } else {
                v = next;
            }
        }
        proof {
            let dv = digits_value(s@, i as int, k as int);
            let dv2 = digits_value(s@, i as int, k + 1);
            assert(dv2 == dv * 10 + (s@[k as int] - 0x30));
            if dv > 999_999_999 {
                assert(dv2 >= dv * 10) by (nonlinear_arith)
                    requires
                        dv2 == dv * 10 + (s@[k as int] - 0x30),
                        is_digit(s@[k as int]),
                ;
                assert(dv2 > 999_999_999);
            }
        }
        k = k + 1;
    }
    v
}

/// The fractional digits `s[i..j)` read as millionths: the first six digits
/// count, the rest are beyond the resolution and are ignored.
pub open spec fn frac_micros(s: Seq<u8>, i: int, j: int, unit: nat) -> nat
    recommends
        0 <= i <= j <= s.len(),
    decreases j - i,
{
    if i >= j || unit == 0 {
        0
    } else {
        ((s[i] - 0x30) as nat) * unit + frac_micros(s, i + 1, j, unit / 10)
    }
}

proof fn lemma_frac_micros_bound(s: Seq<u8>, i: int, j: int, unit: nat)
    requires
        0 <= i <= j <= s.len(),
        forall|k: int| i <= k < j ==> is_digit(s[k]),
    ensures
        unit > 0 ==> frac_micros(s, i, j, unit) <= 10 * unit - 1,
        unit == 0 ==> frac_micros(s, i, j, unit) == 0,
    decreases j - i,
{
    if i < j && unit > 0 {
        lemma_frac_micros_bound(s, i + 1, j, unit / 10);
        assert((s[i] - 0x30) * unit <= 9 * unit) by (nonlinear_arith)
            requires
                0 <= s[i] - 0x30 <= 9,
        ;
        assert(10 * (unit / 10) <= unit);
    }
}

/// Reads the fractional digit run `s[i..j)` as millionths.
pub fn read_frac_micros(s: &[u8], i: usize, j: usize) -> (v: u64)
    requires
        i <= j <= s@.len(),
        forall|k: int| i <= k < j ==> is_digit(s@[k]),
    ensures
        v == frac_micros(s@, i as int, j as int, 100_000),
        v < 1_000_000,
{
    proof {
        lemma_frac_micros_bound(s@, i as int, j as int, 100_000);
    }
    let mut unit: u64 = 100_000;
    let mut v: u64 = 0;
    let mut k = i;
    while k < j && unit > 0
        invariant
            i <= k <= j <= s@.len(),
            forall|m: int| i <= m < j ==> is_digit(s@[m]),
            unit <= 100_000,
            v + frac_micros(s@, k as int, j as int, unit as nat) == frac_micros(
                s@,
                i as int,
                j as int,
                100_000,
            ),
            v + frac_micros(s@, k as int, j as int, unit as nat) < 1_000_000,
        decreases j - k,
    {
        proof {
            lemma_frac_micros_bound(s@, k as int, j as int, unit as nat);
            assert((s@[k as int] - 0x30) * unit <= 9 * unit) by (nonlinear_arith)
                requires
                    0 <= s@[k as int] - 0x30 <= 9,
            ;
        }
        let d = (s[k] - 0x30) as u64;
        v = v + d * unit;
        unit = unit / 10;
        k = k + 1;
    }
    assert(frac_micros(s@, k as int, j as int, unit as nat) == 0);
    v
}

/// Whether the bytes at `i` are exactly `tok`.
pub open spec fn match_at(s: Seq<u8>, i: int, tok: Seq<u8>) -> bool {
    0 <= i && i + tok.len() <= s.len() && s.subrange(i, i + tok.len()) == tok
}

/// Tests an ASCII literal at position `i`.
pub fn match_lit(s: &[u8], i: usize, tok: &str) -> (b: bool)
    requires
        is_ascii(tok),
        i <= s@.len(),
    ensures
        b == match_at(s@, i as int, lit_bytes(tok)),
{
    proof {
        is_ascii_spec_bytes(tok);
    }
    let t = tok.as_bytes();
    let n = t.len();
    let slen = s.len();
    if n > slen - i {
        return false;
    }
    let mut k: usize = 0;
    while k < n
        invariant
            k <= n,
            n == lit_bytes(tok).len(),
            t@ == lit_bytes(tok),
            slen == s@.len(),
            i + n <= slen,
            forall|m: int| 0 <= m < k ==> s@[i + m] == lit_bytes(tok)[m],
        decreases n - k,
    {
        if s[i + k] != t[k] {
            proof {
                assert(s@.subrange(i as int, i + n)[k as int] != lit_bytes(tok)[k as int]);
            }
            return false;
        }
        k = k + 1;
    }
    proof {
        assert(s@.subrange(i as int, i + n) =~= lit_bytes(tok));
    }
    true
}

/// Whether the bytes `s[i..j)` are exactly `tok`.
pub open spec fn range_is(s: Seq<u8>, i: int, j: int, tok: Seq<u8>) -> bool {
    j - i == tok.len() && match_at(s, i, tok)
}

/// Tests whether `s[i..j)` is exactly the ASCII literal.
pub fn range_is_lit(s: &[u8], i: usize, j: usize, tok: &str) -> (b: bool)
    requires
        is_ascii(tok),
        i <= j <= s@.len(),
    ensures
        b == range_is(s@, i as int, j as int, lit_bytes(tok)),
{
    proof {
        is_ascii_spec_bytes(tok);
    }
    if j - i != tok.as_bytes().len() {
        return false;
    }
    match_lit(s, i, tok)
}

/// The position of the next quote at or after `i`, or the length if none.
pub open spec fn quote_end(s: Seq<u8>, i: int) -> int
    recommends
        0 <= i <= s.len(),
    decreases s.len() - i,
{
    if 0 <= i < s.len() {
        if s[i] == 0x22 {
            i
        } else {
            quote_end(s, i + 1)
        }
    } else {
        i
    }
}

/// Scans for the next quote.
pub fn quote_end_at(s: &[u8], i: usize) -> (j: usize)
    requires
        i <= s@.len(),
    ensures
        j == quote_end(s@, i as int),
        i <= j <= s@.len(),
{
    let n = s.len();
    let mut j = i;
    while j < n && s[j] != 0x22
        invariant
            i <= j <= n,
            n == s@.len(),
            quote_end(s@, i as int) == quote_end(s@, j as int),
        decreases n - j,
    {
        j = j + 1;
    }
    j
}

/// A move rate saturates at a billion full scales, in millionths.
pub open spec fn combine_micros(sat_int: nat, frac: nat) -> int {
    if sat_int >= 1_000_000_000 {
        1_000_000_000_000_000
    } else {
        (sat_int * 1_000_000 + frac) as int
    }
}

/// The number starting at `i`, read as signed millionths, and the position
/// after it: an optional minus, digits, optionally a point and digits.
pub open spec fn number_micros(s: Seq<u8>, i: int) -> Option<(int, int)>
    recommends
        0 <= i <= s.len(),
{
    if 0 <= i < s.len() && s[i] == 0x2d {
        match magnitude_micros(s, i + 1) {
            Some((v, e)) => Some((-v, e)),
            None => None,
        }
    } else {
        magnitude_micros(s, i)
    }
}

/// The unsigned part of a number and the position after it.
pub open spec fn magnitude_micros(s: Seq<u8>, i: int) -> Option<(int, int)>
    recommends
        0 <= i <= s.len(),
{
    let e = digits_end(s, i);
    if e == i {
        None
    } else {
        let iv = sat_digits_value(s, i, e);
        if e < s.len() && s[e] == 0x2e {
            let f = digits_end(s, e + 1);
            if f == e + 1 {
                None
            } else {
                Some((combine_micros(iv, frac_micros(s, e + 1, f, 100_000)), f))
            }
        } else {
            Some((combine_micros(iv, 0), e))
        }
    }
}

fn parse_magnitude(s: &[u8], i: usize) -> (r: Option<(i64, usize)>)
    requires
        i <= s@.len(),
    ensures
        match r {
            Some((v, e)) => magnitude_micros(s@, i as int) == Some((v as int, e as int)) && i <= e
                <= s@.len() && 0 <= v <= 1_000_000_000_000_000,
            None => magnitude_micros(s@, i as int) is None,
        },
{
    let e = digits_end_at(s, i);
    if e == i {
        return None;
    }
    proof {
        lemma_digits_end_bounds(s@, i as int);
    }
    let iv = read_sat_digits(s, i, e);
    if e < s.len() && s[e] == 0x2e {
        let f = digits_end_at(s, e + 1);
        if f == e + 1 {
            return None;
        }
        proof {
            lemma_digits_end_bounds(s@, e + 1);
        }
        let frac = read_frac_micros(s, e + 1, f);
        let v: i64 = if iv >= 1_000_000_000 {
            1_000_000_000_000_000
        } else {
            (iv * 1_000_000 + frac) as i64
        };
        Some((v, f))
    } else {
        let v: i64 = if iv >= 1_000_000_000 {
            1_000_000_000_000_000
        } else {
            (iv * 1_000_000) as i64
        };
        Some((v, e))
    }
}

fn parse_number(s: &[u8], i: usize) -> (r: Option<(i64, usize)>)
    requires
        i <= s@.len(),
    ensures
        match r {
            Some((v, e)) => number_micros(s@, i as int) == Some((v as int, e as int)) && i <= e
                <= s@.len() && -1_000_000_000_000_000 <= v <= 1_000_000_000_000_000,
            None => number_micros(s@, i as int) is None,
        },
{
    if i < s.len() && s[i] == 0x2d {
        match parse_magnitude(s, i + 1) {
            Some((v, e)) => Some((-v, e)),
            None => None,
        }
    } else {
        parse_magnitude(s, i)
    }
}

/// The command a quoted name stands for.
pub open spec fn command_of_name(s: Seq<u8>, i: int, j: int) -> Option<Command> {
    if range_is(s, i, j, lit_bytes("fire")) {
        Some(Command::Fire)
    } else if range_is(s, i, j, lit_bytes("release_magazine")) {
        Some(Command::ReleaseMagazine)
    } else if range_is(s, i, j, lit_bytes("load_magazine")) {
        Some(Command::LoadMagazine)
    } else if range_is(s, i, j, lit_bytes("reload")) {
        Some(Command::Reload)
    } else if range_is(s, i, j, lit_bytes("fire_and_reload")) {
        Some(Command::FireAndReload)
    } else if range_is(s, i, j, lit_bytes("home")) {
        Some(Command::Home)
    } else if range_is(s, i, j, lit_bytes("motors_on")) {
        Some(Command::MotorsOn)
    } else if range_is(s, i, j, lit_bytes("motors_off")) {
        Some(Command::MotorsOff)
    } else {
        None
    }
}

fn name_to_command(s: &[u8], i: usize, j: usize) -> (r: Option<Command>)
    requires
        i <= j <= s@.len(),
    ensures
        r == command_of_name(s@, i as int, j as int),
{
    proof {
        reveal_strlit("fire");
        reveal_strlit("release_magazine");
        reveal_strlit("load_magazine");
        reveal_strlit("reload");
        reveal_strlit("fire_and_reload");
        reveal_strlit("home");
        reveal_strlit("motors_on");
        reveal_strlit("motors_off");
    }
    if range_is_lit(s, i, j, "fire") {
        Some(Command::Fire)
    } else if range_is_lit(s, i, j, "release_magazine") {
        Some(Command::ReleaseMagazine)
    } else if range_is_lit(s, i, j, "load_magazine") {
        Some(Command::LoadMagazine)
    } else if range_is_lit(s, i, j, "reload") {
        Some(Command::Reload)
    } else if range_is_lit(s, i, j, "fire_and_reload") {
        Some(Command::FireAndReload)
    } else if range_is_lit(s, i, j, "home") {
        Some(Command::Home)
    } else if range_is_lit(s, i, j, "motors_on") {
        Some(Command::MotorsOn)
    } else if range_is_lit(s, i, j, "motors_off") {
        Some(Command::MotorsOff)
    } else {
        None
    }
}

/// The rest of a command object after its `"command"` key: a colon, the
/// quoted name, the closing brace, and nothing more.
pub open spec fn command_object(s: Seq<u8>, i: int) -> Option<MessageContent>
    recommends
        0 <= i <= s.len(),
{
    let k = skip_ws(s, i);
    if k < s.len() && s[k] == 0x3a {
        let m = skip_ws(s, k + 1);
        if m < s.len() && s[m] == 0x22 {
            let e = quote_end(s, m + 1);
            if e < s.len() {
                let p = skip_ws(s, e + 1);
                if p < s.len() && s[p] == 0x7d && skip_ws(s, p + 1) == s.len() {
                    match command_of_name(s, m + 1, e) {
                        Some(c) => Some(MessageContent::Command(c)),
                        None => None,
                    }
                } else {
                    None
                }
            } else {
                None
            }
        } else {
            None
        }
    } else {
        None
    }
}

fn parse_command_object(s: &[u8], i: usize) -> (r: Option<MessageContent>)
    requires
        i <= s@.len(),
    ensures
        r == command_object(s@, i as int),
{
    let k = skip_ws_at(s, i);
    if !(k < s.len() && s[k] == 0x3a) {
        return None;
    }
    let m = skip_ws_at(s, k + 1);
    if !(m < s.len() && s[m] == 0x22) {
        return None;
    }
    let e = quote_end_at(s, m + 1);
    if !(e < s.len()) {
        return None;
    }
    let p = skip_ws_at(s, e + 1);
    if !(p < s.len() && s[p] == 0x7d) {
        return None;
    }
    if !(skip_ws_at(s, p + 1) == s.len()) {
        return None;
    }
    match name_to_command(s, m + 1, e) {
        Some(c) => Some(MessageContent::Command(c)),
        None => None,
    }
}

/// A member's value after its key: a colon, then a number; the value and the
/// position after it.
pub open spec fn member_number(s: Seq<u8>, i: int) -> Option<(int, int)>
    recommends
        0 <= i <= s.len(),
{
    let k = skip_ws(s, i);
    if k < s.len() && s[k] == 0x3a {
        number_micros(s, skip_ws(s, k + 1))
    } else {
        None
    }
}

fn parse_member_number(s: &[u8], i: usize) -> (r: Option<(i64, usize)>)
    requires
        i <= s@.len(),
    ensures
        match r {
            Some((v, e)) => member_number(s@, i as int) == Some((v as int, e as int)) && i <= e
                <= s@.len() && -1_000_000_000_000_000 <= v <= 1_000_000_000_000_000,
            None => member_number(s@, i as int) is None,
        },
{
    let k = skip_ws_at(s, i);
    if !(k < s.len() && s[k] == 0x3a) {
        return None;
    }
    let m = skip_ws_at(s, k + 1);
    parse_number(s, m)
}

/// The rest of a move object after its first key: the first value, a comma,
/// the other key and value, the closing brace, and nothing more.
pub open spec fn move_object(s: Seq<u8>, i: int, pitch_first: bool) -> Option<MessageContent>
    recommends
        0 <= i <= s.len(),
{
    match member_number(s, i) {
        Some((v1, e1)) => {
            let c = skip_ws(s, e1);
            if c < s.len() && s[c] == 0x2c {
                let k2 = skip_ws(s, c + 1);
                let key2 = if pitch_first {
                    lit_bytes("\"yaw\"")
                } else {
                    lit_bytes("\"pitch\"")
                };
                if match_at(s, k2, key2) {
                    match member_number(s, k2 + key2.len()) {
                        Some((v2, e2)) => {
                            let p = skip_ws(s, e2);
                            if p < s.len() && s[p] == 0x7d && skip_ws(s, p + 1) == s.len() {
                                Some(
                                    MessageContent::Command(
                                        Command::Move {
                                            pitch_micros: (if pitch_first {
                                                v1
                                            } else {
                                                v2
                                            }) as i64,
                                            yaw_micros: (if pitch_first {
                                                v2
                                            } else {
                                                v1
                                            }) as i64,
                                        },
                                    ),
                                )
                            } else {
                                None
                            }
                        },
                        None => None,
                    }
                } else {
                    None
                }
            } else {
                None
            }
        },
        None => None,
    }
}

fn parse_move_object(s: &[u8], i: usize, pitch_first: bool) -> (r: Option<MessageContent>)
    requires
        i <= s@.len(),
    ensures
        r == move_object(s@, i as int, pitch_first),
{
    proof {
        reveal_strlit("\"yaw\"");
        reveal_strlit("\"pitch\"");
    }
    let v1e1 = parse_member_number(s, i);
    match v1e1 {
        Some((v1, e1)) => {
            let c = skip_ws_at(s, e1);
            if !(c < s.len() && s[c] == 0x2c) {
                return None;
            }
            let k2 = skip_ws_at(s, c + 1);
            let (matched, key2_len): (bool, usize) = if pitch_first {
                (match_lit(s, k2, "\"yaw\""), 5)
            } else {
                (match_lit(s, k2, "\"pitch\""), 7)
            };
            if !matched {
                return None;
            }
            proof {
                is_ascii_spec_bytes("\"yaw\"");
                is_ascii_spec_bytes("\"pitch\"");
            }
            let v2e2 = parse_member_number(s, k2 + key2_len);
            match v2e2 {
                Some((v2, e2)) => {
                    let p = skip_ws_at(s, e2);
                    if !(p < s.len() && s[p] == 0x7d) {
                        return None;
                    }
                    if !(skip_ws_at(s, p + 1) == s.len()) {
                        return None;
                    }
                    let (pv, yv) = if pitch_first {
                        (v1, v2)
                    } else {
                        (v2, v1)
                    };
                    Some(MessageContent::Command(Command::Move { pitch_micros: pv, yaw_micros: yv }))
                },
                None => None,
            }
        },
        None => None,
    }
}

/// What one request line means: `"ping"`, a command object, a move object,
/// or nothing.
pub open spec fn parse_request(line: Seq<u8>) -> Option<MessageContent> {
    let i = skip_ws(line, 0);
    if match_at(line, i, lit_bytes("\"ping\"")) && skip_ws(line, i + 6) == line.len() {
        Some(MessageContent::Ping)
    } else if 0 <= i < line.len() && line[i] == 0x7b {
        let j = skip_ws(line, i + 1);
        if match_at(line, j, lit_bytes("\"command\"")) {
            command_object(line, j + 9)
        } else if match_at(line, j, lit_bytes("\"pitch\"")) {
            move_object(line, j + 7, true)
        } else if match_at(line, j, lit_bytes("\"yaw\"")) {
            move_object(line, j + 5, false)
        } else {
            None
        }
    } else {
        None
    }
}

/// Parses one request line.
pub fn parse_request_line(line: &[u8]) -> (r: Option<MessageContent>)
    ensures
        r == parse_request(line@),
{
    proof {
        reveal_strlit("\"ping\"");
        reveal_strlit("\"command\"");
        reveal_strlit("\"pitch\"");
        reveal_strlit("\"yaw\"");
        is_ascii_spec_bytes("\"ping\"");
        is_ascii_spec_bytes("\"command\"");
        is_ascii_spec_bytes("\"pitch\"");
        is_ascii_spec_bytes("\"yaw\"");
    }
    proof {
        assert(lit_bytes("\"ping\"").len() == 6);
        assert(lit_bytes("\"command\"").len() == 9);
        assert(lit_bytes("\"pitch\"").len() == 7);
        assert(lit_bytes("\"yaw\"").len() == 5);
    }
    let n = line.len();
    let i = skip_ws_at(line, 0);
    if match_lit(line, i, "\"ping\"") {
        proof {
            assert(line@[i as int] == line@.subrange(i as int, i + 6)[0]);
            assert(i + 6 <= n);
        }
        if skip_ws_at(line, i + 6) == line.len() {
            return Some(MessageContent::Ping);
        }
        return None;
    }
    if !(i < line.len() && line[i] == 0x7b) {
        return None;
    }
    let j = skip_ws_at(line, i + 1);
    if match_lit(line, j, "\"command\"") {
        parse_command_object(line, j + 9)
    } else if match_lit(line, j, "\"pitch\"") {
        parse_move_object(line, j + 7, true)
    } else if match_lit(line, j, "\"yaw\"") {
        parse_move_object(line, j + 5, false)
    } else {
        None
    }
}

} // verus!
