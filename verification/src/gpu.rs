//! Which GPU is reported, what it is called, and how its engine counters are
//! grouped.
//!
//! The reported GPU is the first adapter, among the first [`MAX_ADAPTERS`]
//! that the system lists, that is not a software adapter. Its name is the
//! UTF-16 description up to the first NUL unit. Utilisation counters are
//! reported per process and engine; only instances of the selected adapter
//! count, and instances are grouped by engine: the part of the instance name
//! from `_luid_` on, which names adapter, physical engine and engine type.
//! An instance belongs to the adapter whose identifier halves the engine part
//! names after `_luid_0x` and `_0x`, read as hexadecimal numbers.

use vstd::prelude::*;

use crate::text::{
    find_first, first_occurrence, hex_number, is_first_occurrence, is_prefix, lemma_first_occurrence_at,
    lemma_hex_roundtrip, occurs_at, parse_hex, pow16, spec_hex_digits, starts_with,
};

verus! {

/// Adapter flag bit that marks a software (non-hardware) adapter.
pub const ADAPTER_FLAG_SOFTWARE: u32 = 2;

/// Number of adapter slots that are examined.
pub const MAX_ADAPTERS: usize = 32;

/// Counter status: the value is valid.
pub const COUNTER_STATUS_VALID: u32 = 0;

/// Counter status: the value is valid and new since the last collection.
pub const COUNTER_STATUS_NEW_DATA: u32 = 1;

/// What the logic reads of an adapter description.
pub struct AdapterDesc {
    /// The UTF-16 description, NUL-padded.
    pub description: Vec<u16>,
    /// Dedicated video memory, in bytes.
    pub dedicated_video_memory: u64,
    /// Low half of the adapter's locally unique identifier.
    pub luid_low: u32,
    /// High half of the adapter's locally unique identifier.
    pub luid_high: i32,
    /// Adapter flags.
    pub flags: u32,
}

/// The GPU that the samples describe.
pub struct GpuAdapter {
    pub name: String,
    pub dedicated_total_bytes: u64,
    pub luid_low: u32,
    pub luid_high: i32,
}

/// UTF-16 decoding that replaces invalid data: a unit outside the surrogate
/// range is its own character; a high surrogate followed by a low surrogate
/// is the character of the pair; any other surrogate becomes one U+FFFD and
/// decoding resumes at the next unit.
pub open spec fn utf16_decode(units: Seq<u16>) -> Seq<char>
    decreases units.len(),
{
    if units.len() == 0 {
        Seq::empty()
    } else if units[0] < 0xD800 || units[0] > 0xDFFF {
        seq![units[0] as char] + utf16_decode(units.drop_first())
    } else if units[0] <= 0xDBFF && units.len() >= 2 && 0xDC00 <= units[1] <= 0xDFFF {
        seq![(0x10000 + (units[0] - 0xD800) * 0x400 + (units[1] - 0xDC00)) as char]
            + utf16_decode(units.subrange(2, units.len() as int))
    } else {
        seq!['\u{FFFD}'] + utf16_decode(units.drop_first())
    }
}

/// No unit lies in the surrogate range.
pub open spec fn no_surrogates(units: Seq<u16>) -> bool {
    forall|i: int| 0 <= i < units.len() ==> units[i] < 0xD800 || units[i] > 0xDFFF
}

/// Without surrogates, decoding maps each unit to the character of the same
/// value, one for one.
pub proof fn lemma_decode_without_surrogates(units: Seq<u16>)
    requires
        no_surrogates(units),
    ensures
        utf16_decode(units).len() == units.len(),
        forall|i: int| 0 <= i < units.len() ==> utf16_decode(units)[i] == units[i] as char,
    decreases units.len(),
{
    if units.len() > 0 {
        let rest = units.drop_first();
        assert(no_surrogates(rest)) by {
            assert forall|i: int| 0 <= i < rest.len() implies rest[i] < 0xD800 || rest[i] > 0xDFFF by {
                assert(rest[i] == units[i + 1]);
            }
        }
        lemma_decode_without_surrogates(rest);
        assert forall|i: int| 0 <= i < units.len() implies utf16_decode(units)[i]
            == units[i] as char by {
            if i > 0 {
                assert(rest[i - 1] == units[i]);
            }
        }
    }
}

/// Decodes UTF-16 with `String::from_utf16_lossy`, which its documentation
/// describes as decoding the units and replacing invalid data (each unpaired
/// surrogate) with U+FFFD; the contract states that decoding.
#[verifier::external_body]
fn string_from_utf16_lossy(units: &[u16]) -> (s: String)
    ensures
        s@ == utf16_decode(units@),
{
    String::from_utf16_lossy(units)
}

/// The adapter in this slot was described and is a hardware adapter.
pub open spec fn usable_adapter(slot: Option<AdapterDesc>) -> bool {
    match slot {
        Some(d) => d.flags & ADAPTER_FLAG_SOFTWARE == 0,
        None => false,
    }
}

/// Number of units before the first NUL unit (all of them if there is none).
pub open spec fn is_name_end(units: Seq<u16>, end: int) -> bool {
    &&& 0 <= end <= units.len()
    &&& forall|j: int| 0 <= j < end ==> units[j] != 0
    &&& end < units.len() ==> units[end] == 0
}

/// The adapter's name: its description up to the first NUL unit, decoded.
pub open spec fn spec_adapter_name(units: Seq<u16>) -> Seq<char> {
    utf16_decode(units.take(choose|end: int| is_name_end(units, end)))
}

/// The prefix that the engine part of a counter instance name starts with.
pub open spec fn luid_marker() -> Seq<char> {
    "_luid_"@
}

/// The engine part of a counter instance name: from the first `_luid_` on,
/// or the whole name when it has none.
pub open spec fn spec_engine_key(name: Seq<char>) -> Seq<char> {
    match first_occurrence(name, luid_marker()) {
        Some(i) => name.skip(i),
        None => name,
    }
}

/// The two halves of the adapter identifier that an engine part names:
/// `_luid_0x<high>_0x<low>_…`, each half one to eight hexadecimal digits of
/// either case.
pub open spec fn luid_fields(key: Seq<char>) -> Option<(nat, nat)> {
    if !is_prefix(seq!['_', 'l', 'u', 'i', 'd', '_', '0', 'x'], key) {
        None
    } else {
        let rest = key.skip(8);
        match first_occurrence(rest, seq!['_']) {
            None => None,
            Some(p) => if !(1 <= p <= 8) {
                None
            } else {
                let tail = rest.skip(p);
                if !is_prefix(seq!['_', '0', 'x'], tail) {
                    None
                } else {
                    let low_part = tail.skip(3);
                    match first_occurrence(low_part, seq!['_']) {
                        None => None,
                        Some(q) => if !(1 <= q <= 8) {
                            None
                        } else {
                            match (hex_number(rest.take(p)), hex_number(low_part.take(q))) {
                                (Some(h), Some(l)) => Some((h, l)),
                                _ => None,
                            }
                        },
                    }
                }
            },
        }
    }
}

/// The counter instance named `name` belongs to the adapter with identifier
/// (`high`, `low`).
pub open spec fn on_adapter(name: Seq<char>, high: i32, low: u32) -> bool {
    luid_fields(spec_engine_key(name)) == Some((high as u32 as nat, low as nat))
}

/// `j` is the first instance of the adapter whose engine is that of instance `i`.
pub open spec fn is_representative(names: Seq<Seq<char>>, high: i32,
    low: u32, i: int, j: int) -> bool {
    &&& 0 <= j <= i < names.len()
    &&& on_adapter(names[i], high, low)
    &&& on_adapter(names[j], high, low)
    &&& spec_engine_key(names[j]) == spec_engine_key(names[i])
    &&& forall|k: int|
        0 <= k < j && on_adapter(#[trigger] names[k], high, low) ==> spec_engine_key(names[k])
            != spec_engine_key(names[i])
}

/// The character views of a list of strings.
pub open spec fn views(names: Seq<String>) -> Seq<Seq<char>> {
    names.map_values(|s: String| s@)
}

/// Whether a counter value with this status may be used.
pub fn counter_status_usable(status: u32) -> (r: bool)
    ensures
        r == (status == COUNTER_STATUS_VALID || status == COUNTER_STATUS_NEW_DATA),
{
    status == COUNTER_STATUS_VALID || status == COUNTER_STATUS_NEW_DATA
}

/// The first slot, among the first `MAX_ADAPTERS`, that holds a hardware
/// adapter. A `None` slot is an adapter whose description could not be read.
pub fn select_adapter(slots: &Vec<Option<AdapterDesc>>) -> (r: Option<usize>)
    ensures
        match r {
            Some(i) => i < slots@.len() && i < MAX_ADAPTERS && usable_adapter(slots@[i as int])
                && forall|j: int| 0 <= j < i ==> !usable_adapter(#[trigger] slots@[j]),
            None => forall|j: int|
                0 <= j < slots@.len() && j < MAX_ADAPTERS ==> !usable_adapter(#[trigger] slots@[j]),
        },
{
    let mut i: usize = 0;
    while i < slots.len() && i < MAX_ADAPTERS
        invariant
            i <= MAX_ADAPTERS,
            i <= slots@.len(),
            forall|j: int| 0 <= j < i ==> !usable_adapter(#[trigger] slots@[j]),
        decreases MAX_ADAPTERS - i,
    {
        match &slots[i] {
            Some(d) => {
                if d.flags & ADAPTER_FLAG_SOFTWARE == 0 {
                    return Some(i);
                }
            },
            None => {},
        }
        i = i + 1;
    }
    None
}

/// Number of description units before the first NUL unit.
pub fn name_end(units: &Vec<u16>) -> (end: usize)
    ensures
        is_name_end(units@, end as int),
{
    let mut i: usize = 0;
    while i < units.len()
        invariant
            i <= units@.len(),
            forall|j: int| 0 <= j < i ==> units@[j] != 0,
        decreases units@.len() - i,
    {
        if units[i] == 0 {
            return i;
        }
        i = i + 1;
    }
    i
}

/// The name, memory and identifier of a described adapter.
pub fn describe_adapter(desc: &AdapterDesc) -> (g: GpuAdapter)
    ensures
        g.name@ == spec_adapter_name(desc.description@),
        forall|end: int|
            is_name_end(desc.description@, end) ==> g.name@ == utf16_decode(
                #[trigger] desc.description@.take(end),
            ),
        forall|end: int|
            is_name_end(desc.description@, end) && no_surrogates(
                #[trigger] desc.description@.take(end),
            ) ==> g.name@.len() == end && forall|i: int|
                0 <= i < end ==> g.name@[i] == desc.description@[i] as char,
        g.dedicated_total_bytes == desc.dedicated_video_memory,
        g.luid_low == desc.luid_low,
        g.luid_high == desc.luid_high,
{
    let end = name_end(&desc.description);
    let mut units: Vec<u16> = Vec::new();
    let mut i: usize = 0;
    while i < end
        invariant
            end <= desc.description@.len(),
            i <= end,
            units@ == desc.description@.take(i as int),
        decreases end - i,
    {
        units.push(desc.description[i]);
        i = i + 1;
        assert(units@ =~= desc.description@.take(i as int));
    }
    proof {
        let c = choose|e: int| is_name_end(desc.description@, e);
        assert(is_name_end(desc.description@, end as int));
        assert(c == end) by {
            if c < end {
                assert(desc.description@[c] != 0);
            } else if c > end {
                assert(desc.description@[end as int] != 0);
            }
        }
    }
    let name = string_from_utf16_lossy(units.as_slice());
    proof {
        if no_surrogates(desc.description@.take(end as int)) {
            lemma_decode_without_surrogates(desc.description@.take(end as int));
        }
    }
    GpuAdapter {
        name,
        dedicated_total_bytes: desc.dedicated_video_memory,
        luid_low: desc.luid_low,
        luid_high: desc.luid_high,
    }
}

/// The engine part of a counter instance name.
pub fn engine_key(name: &str) -> (k: String)
    ensures
        k@ == spec_engine_key(name@),
{
    match find_first(name, "_luid_") {
        Some(i) => {
            let n: usize = name.unicode_len();
            let rest = name.substring_char(i, n);
            assert(rest@ =~= name@.skip(i as int));
            String::from_str(rest)
        },
        None => String::from_str(name),
    }
}

/// The adapter identifier named by an engine part, if it names one.
pub fn luid_of_key(key: &str) -> (r: Option<(u32, u32)>)
    ensures
        match r {
            Some((h, l)) => luid_fields(key@) == Some((h as nat, l as nat)),
            None => luid_fields(key@) is None,
        },
{
    proof {
        reveal_strlit("_luid_0x");
        reveal_strlit("_0x");
        reveal_strlit("_");
        assert("_luid_0x"@ =~= seq!['_', 'l', 'u', 'i', 'd', '_', '0', 'x']);
        assert("_0x"@ =~= seq!['_', '0', 'x']);
        assert("_"@ =~= seq!['_']);
    }
    if !starts_with(key, "_luid_0x") {
        return None;
    }
    let n: usize = key.unicode_len();
    let rest = key.substring_char(8, n);
    assert(rest@ =~= key@.skip(8));
    let p: usize = match find_first(rest, "_") {
        Some(p) => p,
        None => return None,
    };
    if p < 1 || p > 8 {
        return None;
    }
    let m: usize = rest.unicode_len();
    let high_digits = rest.substring_char(0, p);
    assert(high_digits@ =~= rest@.take(p as int));
    let tail = rest.substring_char(p, m);
    assert(tail@ =~= rest@.skip(p as int));
    if !starts_with(tail, "_0x") {
        return None;
    }
    let t: usize = tail.unicode_len();
    let low_part = tail.substring_char(3, t);
    assert(low_part@ =~= tail@.skip(3));
    let q: usize = match find_first(low_part, "_") {
        Some(q) => q,
        None => return None,
    };
    if q < 1 || q > 8 {
        return None;
    }
    let low_digits = low_part.substring_char(0, q);
    assert(low_digits@ =~= low_part@.take(q as int));
    match (parse_hex(high_digits), parse_hex(low_digits)) {
        (Some(h), Some(l)) => Some((h, l)),
        _ => None,
    }
}

/// Whether the counter instance named `name` belongs to the adapter with
/// identifier (`high`, `low`).
pub fn instance_on_adapter(name: &str, high: i32, low: u32) -> (r: bool)
    ensures
        r == on_adapter(name@, high, low),
{
    let key = engine_key(name);
    match luid_of_key(key.as_str()) {
        Some((h, l)) => h == high as u32 && l == low,
        None => false,
    }
}

/// The counter instance names, when every one of them could be decoded;
/// `None` when one could not, in which case no reading is reported.
pub fn decoded_names(names: &Vec<Option<String>>) -> (r: Option<Vec<String>>)
    ensures
        match r {
            Some(v) => v@.len() == names@.len() && forall|i: int|
                0 <= i < names@.len() ==> names@[i] == Some(#[trigger] v@[i]),
            None => exists|i: int| 0 <= i < names@.len() && #[trigger] names@[i] is None,
        },
{
    let mut out: Vec<String> = Vec::new();
    let mut i: usize = 0;
    while i < names.len()
        invariant
            i <= names@.len(),
            out@.len() == i,
            forall|j: int| 0 <= j < i ==> names@[j] == Some(#[trigger] out@[j]),
        decreases names@.len() - i,
    {
        match &names[i] {
            Some(name) => out.push(name.clone()),
            None => return None,
        }
        i = i + 1;
    }
    Some(out)
}

/// Groups counter instances by engine: for each instance of the adapter
/// with identifier (`high`, `low`), the index of the first instance of that adapter with the
/// same engine part; `None` for instances of other adapters.
pub fn engine_groups(names: &Vec<String>, high: i32, low: u32) -> (groups: Vec<Option<usize>>)
    ensures
        groups@.len() == names@.len(),
        forall|i: int|
            0 <= i < names@.len() ==> match #[trigger] groups@[i] {
                Some(j) => is_representative(views(names@), high, low, i, j as int),
                None => !on_adapter(names@[i]@, high, low),
            },
{
    let ghost v = views(names@);
    let mut keys: Vec<String> = Vec::new();
    let mut accepted: Vec<bool> = Vec::new();
    let mut i: usize = 0;
    while i < names.len()
        invariant
            v == views(names@),
            i <= names@.len(),
            keys@.len() == i,
            accepted@.len() == i,
            forall|j: int| 0 <= j < i ==> #[trigger] keys@[j]@ == spec_engine_key(v[j]),
            forall|j: int| 0 <= j < i ==> #[trigger] accepted@[j] == on_adapter(v[j], high, low),
        decreases names@.len() - i,
    {
        let key = engine_key(names[i].as_str());
        let on = instance_on_adapter(names[i].as_str(), high, low);
        keys.push(key);
        accepted.push(on);
        i = i + 1;
    }
    let mut groups: Vec<Option<usize>> = Vec::new();
    let mut i: usize = 0;
    while i < names.len()
        invariant
            v == views(names@),
            i <= names@.len(),
            keys@.len() == names@.len(),
            accepted@.len() == names@.len(),
            forall|j: int| 0 <= j < names@.len() ==> #[trigger] keys@[j]@ == spec_engine_key(v[j]),
            forall|j: int| 0 <= j < names@.len() ==> #[trigger] accepted@[j] == on_adapter(v[j], high, low),
            groups@.len() == i,
            forall|t: int|
                0 <= t < i ==> match #[trigger] groups@[t] {
                    Some(j) => is_representative(v, high, low, t, j as int),
                    None => !on_adapter(v[t], high, low),
                },
        decreases names@.len() - i,
    {
        if !accepted[i] {
            groups.push(None);
        } else {
            let mut j: usize = 0;
            while !(accepted[j] && keys[j] == keys[i])
                invariant
                    v == views(names@),
                    i < names@.len(),
                    j <= i,
                    keys@.len() == names@.len(),
                    accepted@.len() == names@.len(),
                    accepted@[i as int],
                    forall|q: int| 0 <= q < names@.len() ==> #[trigger] keys@[q]@ == spec_engine_key(v[q]),
                    forall|q: int|
                        0 <= q < names@.len() ==> #[trigger] accepted@[q] == on_adapter(v[q], high, low),
                    forall|k: int|
                        0 <= k < j && on_adapter(#[trigger] v[k], high, low) ==> spec_engine_key(v[k])
                            != spec_engine_key(v[i as int]),
                decreases i - j,
            {
                j = j + 1;
            }
            groups.push(Some(j));
        }
        i = i + 1;
    }
    groups
}

/// Two instances of the adapter are in the same group exactly when they have
/// the same engine part.
pub proof fn lemma_groups_follow_engines(
    names: Seq<Seq<char>>,
    high: i32,
    low: u32,
    i: int,
    ri: int,
    j: int,
    rj: int,
)
    requires
        is_representative(names, high, low, i, ri),
        is_representative(names, high, low, j, rj),
    ensures
        (ri == rj) <==> (spec_engine_key(names[i]) == spec_engine_key(names[j])),
{
    if spec_engine_key(names[i]) == spec_engine_key(names[j]) {
        if ri < rj {
            assert(on_adapter(names[ri], high, low));
        } else if rj < ri {
            assert(on_adapter(names[rj], high, low));
        }
    }
}

/// The engine part that names the adapter (`high`, `low`) in the form the
/// counters use: `_luid_0x`, eight hexadecimal digits of the high half, `_0x`,
/// eight of the low half, `_`, then anything.
pub open spec fn named_key(high: nat, low: nat, rest: Seq<char>) -> Seq<char> {
    seq!['_', 'l', 'u', 'i', 'd', '_', '0', 'x'] + spec_hex_digits(high, 8) + seq!['_', '0', 'x']
        + spec_hex_digits(low, 8) + seq!['_'] + rest
}

/// `_` occurs first right after eight characters that hold none.
proof fn lemma_separator_after_field(field: Seq<char>, after: Seq<char>)
    requires
        field.len() == 8,
        forall|i: int| 0 <= i < 8 ==> field[i] != '_',
        after.len() >= 1,
        after[0] == '_',
    ensures
        first_occurrence(field + after, seq!['_']) == Some(8int),
        (field + after).take(8) == field,
        (field + after).skip(8) == after,
{
    let s = field + after;
    let u = seq!['_'];
    assert(s.subrange(8, 9) =~= u);
    assert forall|j: int| 0 <= j < 8 implies !occurs_at(s, u, j) by {
        assert(s.subrange(j, j + 1)[0] == field[j]);
    }
    assert(is_first_occurrence(s, u, 8));
    lemma_first_occurrence_at(s, u, 8);
    assert(s.take(8) =~= field);
    assert(s.skip(8) =~= after);
}

/// The identifier fields of an engine part made of the two digit fields.
#[verifier::spinoff_prover]
proof fn lemma_fields_of_key(hh: Seq<char>, hl: Seq<char>, rest: Seq<char>, h: nat, l: nat)
    requires
        hh.len() == 8,
        hl.len() == 8,
        forall|i: int| 0 <= i < 8 ==> hh[i] != '_',
        forall|i: int| 0 <= i < 8 ==> hl[i] != '_',
        hex_number(hh) == Some(h),
        hex_number(hl) == Some(l),
    ensures
        luid_fields(
            seq!['_', 'l', 'u', 'i', 'd', '_', '0', 'x'] + hh + seq!['_', '0', 'x'] + hl + seq!['_']
                + rest,
        ) == Some((h, l)),
{
    let head = seq!['_', 'l', 'u', 'i', 'd', '_', '0', 'x'];
    let sep = seq!['_', '0', 'x'];
    let u = seq!['_'];
    let key = head + hh + sep + hl + u + rest;
    assert(key.take(8) =~= head);
    let after_high = sep + hl + u + rest;
    assert(key.skip(8) =~= hh + after_high);
    lemma_separator_after_field(hh, after_high);
    assert(after_high.take(3) =~= sep);
    let after_low = u + rest;
    assert(after_high.skip(3) =~= hl + after_low);
    lemma_separator_after_field(hl, after_low);
}

/// An engine part that writes an adapter identifier in hexadecimal names that
/// identifier, whatever its digits and whatever follows; so a counter
/// instance whose engine part names the selected adapter belongs to it, and
/// one that names another adapter does not.
#[verifier::spinoff_prover]
#[verifier::rlimit(50)]
pub proof fn lemma_named_key_identifies_adapter(
    high: i32,
    low: u32,
    rest: Seq<char>,
    other_high: i32,
    other_low: u32,
)
    ensures
        luid_fields(named_key(high as u32 as nat, low as nat, rest)) == Some(
            (high as u32 as nat, low as nat),
        ),
        on_adapter(named_key(high as u32 as nat, low as nat, rest), high, low),
        (other_high != high || other_low != low) ==> !on_adapter(
            named_key(high as u32 as nat, low as nat, rest),
            other_high,
            other_low,
        ),
{
    let h = high as u32 as nat;
    let l = low as nat;
    assert(pow16(8) == 4294967296) by {
        reveal_with_fuel(pow16, 9);
    }
    lemma_hex_roundtrip(h, 8);
    lemma_hex_roundtrip(l, 8);
    lemma_fields_of_key(spec_hex_digits(h, 8), spec_hex_digits(l, 8), rest, h, l);
    let key = named_key(h, l, rest);
    reveal_strlit("_luid_");
    assert(luid_marker() =~= seq!['_', 'l', 'u', 'i', 'd', '_']);
    assert(key.subrange(0, 6) =~= luid_marker());
    assert(is_first_occurrence(key, luid_marker(), 0));
    lemma_first_occurrence_at(key, luid_marker(), 0);
    assert(key.skip(0) =~= key);
    if other_high != high {
        assert(other_high as u32 != high as u32) by (bit_vector)
            requires other_high != high;
    }
}

/// The engine part of a name is a suffix of it; when the name holds
/// `_luid_`, the engine part starts there, at its first occurrence.
pub proof fn lemma_engine_key_is_suffix(name: Seq<char>)
    ensures
        spec_engine_key(name).len() <= name.len(),
        spec_engine_key(name) == name.skip(name.len() - spec_engine_key(name).len()),
        (exists|i: int| occurs_at(name, luid_marker(), i)) ==> is_prefix(
            luid_marker(),
            spec_engine_key(name),
        ),
        (forall|i: int| !occurs_at(name, luid_marker(), i)) ==> spec_engine_key(name) == name,
{
    match first_occurrence(name, luid_marker()) {
        Some(i) => {
            assert(is_first_occurrence(name, luid_marker(), i));
            assert(name.skip(i).take(luid_marker().len() as int) =~= name.subrange(
                i,
                i + luid_marker().len(),
            ));
            assert(name.skip(name.len() - name.skip(i).len()) =~= name.skip(i));
        },
        None => {
            assert(name.skip(0) =~= name);
            if exists|i: int| occurs_at(name, luid_marker(), i) {
                let w = choose|i: int| occurs_at(name, luid_marker(), i);
                lemma_some_occurrence_has_first(name, luid_marker(), w);
            }
        },
    }
}

/// If `m` occurs in `s` at all, it has a first occurrence.
proof fn lemma_some_occurrence_has_first(s: Seq<char>, m: Seq<char>, w: int)
    requires
        occurs_at(s, m, w),
    ensures
        first_occurrence(s, m) is Some,
    decreases w,
{
    if exists|j: int| 0 <= j < w && occurs_at(s, m, j) {
        let j = choose|j: int| 0 <= j < w && occurs_at(s, m, j);
        lemma_some_occurrence_has_first(s, m, j);
    } else {
        assert(is_first_occurrence(s, m, w));
    }
}

} // verus!
