use crate::util::{string_views, zip_len, zip_map};
use vstd::prelude::*;

verus! {

/// The value of a hexadecimal digit (either case), or `None` for any other character.
pub open spec fn hex_digit(c: char) -> Option<nat> {
    if '0' <= c <= '9' {
        Some((c as nat - '0' as nat) as nat)
    } else if 'a' <= c <= 'f' {
        Some((c as nat - 'a' as nat + 10) as nat)
    } else if 'A' <= c <= 'F' {
        Some((c as nat - 'A' as nat + 10) as nat)
    } else {
        None
    }
}

/// Every character of `d` is a hexadecimal digit.
pub open spec fn all_hex(d: Seq<char>) -> bool {
    forall|i: int| 0 <= i < d.len() ==> (#[trigger] hex_digit(d[i])).is_some()
}

/// The number that the hexadecimal digits `d` denote, most significant first.
pub open spec fn hex_value(d: Seq<char>) -> nat
    decreases d.len(),
{
    if d.len() == 0 {
        0
    } else {
        hex_value(d.drop_last()) * 16 + hex_digit(d.last()).unwrap_or(0)
    }
}

/// The digits of a hexadecimal literal: the text after an optional leading `+`.
pub open spec fn hex_digits_of(s: Seq<char>) -> Seq<char> {
    if s.len() > 0 && s[0] == '+' {
        s.drop_first()
    } else {
        s
    }
}

/// A 16-bit hexadecimal literal read in radix 16: an optional `+`, then at
/// least one hex digit, with a value that fits in 16 bits.
pub open spec fn hex_u16(s: Seq<char>) -> Option<u16> {
    let d = hex_digits_of(s);
    if d.len() > 0 && all_hex(d) && hex_value(d) <= 0xffff {
        Some(hex_value(d) as u16)
    } else {
        None
    }
}

proof fn lemma_hex_value_grows(d: Seq<char>, k: int)
    requires
        0 <= k <= d.len(),
        all_hex(d),
    ensures
        hex_value(d.subrange(0, k)) <= hex_value(d),
    decreases d.len() - k,
{
    if k < d.len() {
        lemma_hex_value_grows(d, k + 1);
        let p = d.subrange(0, k + 1);
        assert(p.drop_last() =~= d.subrange(0, k));
    } else {
        assert(d.subrange(0, k) =~= d);
    }
}

/// Reads `s` as a 16-bit hexadecimal literal, as `u16::from_str_radix(s, 16)` does.
pub fn parse_hex_u16(s: &str) -> (r: Option<u16>)
    ensures
        r == hex_u16(s@),
{
    let ghost d = hex_digits_of(s@);
    if !s.is_ascii() {
        proof {
            let i = choose|i: int| 0 <= i < s@.len() && !('\0' <= #[trigger] s@[i] <= '\u{7f}');
            if s@[0] == '+' {
                assert(d[i - 1] == s@[i]);
                assert(hex_digit(d[i - 1]).is_none());
            } else {
                assert(hex_digit(d[i]).is_none());
            }
        }
        return None;
    }
    let bytes = s.as_bytes();
    proof {
        vstd::string::is_ascii_spec_bytes(s);
    }
    assert(bytes@.len() == s@.len());
    let mut start: usize = 0;
    if bytes.len() > 0 && bytes[0] == 43u8 {
        start = 1;
    }
    assert(d =~= s@.subrange(start as int, s@.len() as int));
    if start >= bytes.len() {
        return None;
    }
    let mut acc: u32 = 0;
    let mut i: usize = start;
    while i < bytes.len()
        invariant
            start <= i <= bytes@.len(),
            bytes@.len() == s@.len(),
            forall|j: int| 0 <= j < s@.len() ==> #[trigger] bytes@[j] == s@[j] as u8,
            forall|j: int| 0 <= j < s@.len() ==> '\0' <= #[trigger] s@[j] <= '\u{7f}',
            d == hex_digits_of(s@),
            d =~= s@.subrange(start as int, s@.len() as int),
            all_hex(d.subrange(0, i - start)),
            acc == hex_value(d.subrange(0, i - start)),
            acc <= 0xffff,
        decreases bytes@.len() - i,
    {
        let b = bytes[i];
        let ghost c = s@[i as int];
        assert(c as nat == b as nat);
        let v: u32 = if 48u8 <= b && b <= 57u8 {
            (b - 48u8) as u32
        } else if 97u8 <= b && b <= 102u8 {
            (b - 87u8) as u32
        } else if 65u8 <= b && b <= 70u8 {
            (b - 55u8) as u32
        } else {
            assert(hex_digit(d[i - start]).is_none());
            assert(!all_hex(d));
            return None;
        };
        let ghost prev = d.subrange(0, i - start);
        let ghost next = d.subrange(0, i - start + 1);
        assert(next.drop_last() =~= prev);
        assert(hex_digit(c) == Some(v as nat));
        assert(next.last() == c);
        acc = acc * 16 + v;
        assert(acc == hex_value(next));
        if acc > 0xffff {
            proof {
                if all_hex(d) {
                    lemma_hex_value_grows(d, i - start + 1);
                    assert(hex_value(d) > 0xffff);
                }
            }
            return None;
        }
        i = i + 1;
    }
    assert(d.subrange(0, i - start) =~= d);
    Some(acc as u16)
}

/// The value of option `key` among the first `n` pairs of `keys` and `values`:
/// the value paired with the last occurrence of the key, if any.
pub open spec fn option_among(
    keys: Seq<Seq<char>>,
    values: Seq<Seq<char>>,
    key: Seq<char>,
    n: int,
) -> Option<Seq<char>>
    decreases n,
{
    if n <= 0 {
        None
    } else if keys[n - 1] == key {
        Some(values[n - 1])
    } else {
        option_among(keys, values, key, n - 1)
    }
}

/// The value of option `key` in an option table given as parallel key and value
/// lists (pairs beyond the shorter list are ignored, a repeated key keeps its
/// last value).
pub open spec fn option_value(keys: Seq<Seq<char>>, values: Seq<Seq<char>>, key: Seq<char>) -> Option<
    Seq<char>,
> {
    option_among(keys, values, key, zip_len(keys.len(), values.len()) as int)
}

/// The direction mask an option table asks for, and whether it fell back to
/// all-output because no usable mask was given:
/// `mode` = `output` gives all outputs; any other `mode` gives all inputs;
/// otherwise `mask` is read as a hexadecimal literal; a missing or unreadable
/// `mask` gives all outputs with the fallback flag set.
pub open spec fn mask_from_options(keys: Seq<Seq<char>>, values: Seq<Seq<char>>) -> MaskResolution {
    match option_value(keys, values, "mode"@) {
        Some(mode) => if mode == "output"@ {
            MaskResolution { mask: 0x0000, fallback: false }
        } else {
            MaskResolution { mask: 0xffff, fallback: false }
        },
        None => match option_value(keys, values, "mask"@) {
            Some(text) => match hex_u16(text) {
                Some(v) => MaskResolution { mask: v, fallback: false },
                None => MaskResolution { mask: 0x0000, fallback: true },
            },
            None => MaskResolution { mask: 0x0000, fallback: true },
        },
    }
}

/// Looking an option up in the parallel key and value lists gives what the map
/// built from those lists by `vecs2map` holds for that key.
pub proof fn lemma_option_value_is_map_lookup(
    keys: Seq<Seq<char>>,
    values: Seq<Seq<char>>,
    key: Seq<char>,
)
    ensures
        ({
            let m = zip_map(keys, values, zip_len(keys.len(), values.len()) as int);
            option_value(keys, values, key) == if m.contains_key(key) {
                Some(m[key])
            } else {
                None
            }
        }),
{
    lemma_option_among_is_map_lookup(keys, values, key, zip_len(keys.len(), values.len()) as int);
}

proof fn lemma_option_among_is_map_lookup(
    keys: Seq<Seq<char>>,
    values: Seq<Seq<char>>,
    key: Seq<char>,
    n: int,
)
    ensures
        ({
            let m = zip_map(keys, values, n);
            option_among(keys, values, key, n) == if m.contains_key(key) {
                Some(m[key])
            } else {
                None
            }
        }),
    decreases n,
{
    if n > 0 {
        lemma_option_among_is_map_lookup(keys, values, key, n - 1);
    }
}

/// A resolved direction mask (bit set = input) and whether it is the
/// all-output fallback taken for a missing or malformed `mask` option.
#[derive(Clone, Copy, Debug, PartialEq, Eq, Structural)]
pub struct MaskResolution {
    pub mask: u16,
    pub fallback: bool,
}

/// The index of the pair that gives option `key` its value.
fn find_option(keys: &Vec<String>, values: &Vec<String>, key: &String) -> (r: Option<usize>)
    ensures
        match r {
            Some(i) => i < keys@.len() && i < values@.len() && option_value(
                string_views(keys@),
                string_views(values@),
                key@,
            ) == Some(values@[i as int]@),
            None => option_value(string_views(keys@), string_views(values@), key@) == None::<
                Seq<char>,
            >,
        },
{
    let ghost kv = string_views(keys@);
    let ghost vv = string_views(values@);
    let n: usize = if keys.len() <= values.len() { keys.len() } else { values.len() };
    let mut i: usize = n;
    while i > 0
        invariant
            i <= n,
            n == zip_len(keys@.len(), values@.len()),
            kv == string_views(keys@),
            vv == string_views(values@),
            option_value(kv, vv, key@) == option_among(kv, vv, key@, i as int),
        decreases i,
    {
        i = i - 1;
        if keys[i] == *key {
            return Some(i);
        }
    }
    None
}

/// Resolves the direction mask of a chip from its option table (parallel key
/// and value lists); never fails.
pub fn resolve_config_mask(keys: &Vec<String>, values: &Vec<String>) -> (r: MaskResolution)
    ensures
        r == mask_from_options(string_views(keys@), string_views(values@)),
{
    let mode_key = "mode".to_owned();
    match find_option(keys, values, &mode_key) {
        Some(i) => {
            let output = "output".to_owned();
            if values[i] == output {
                MaskResolution { mask: 0x0000, fallback: false }
            } else {
                MaskResolution { mask: 0xffff, fallback: false }
            }
        },
        None => {
            let mask_key = "mask".to_owned();
            match find_option(keys, values, &mask_key) {
                Some(i) => match parse_hex_u16(values[i].as_str()) {
                    Some(v) => MaskResolution { mask: v, fallback: false },
                    None => MaskResolution { mask: 0x0000, fallback: true },
                },
                None => MaskResolution { mask: 0x0000, fallback: true },
            }
        },
    }
}

} // verus!
