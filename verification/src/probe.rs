//! Finding out whether L2 VMs can be run, and with how much memory.
//!
//! The guest's memory has to be reserved before the VM exists, because the
//! memory layout is built from the address it lands at. So its size is a
//! property of the backend rather than of the VM configuration.
use crate::error::ParameterError;
use crate::error::SizeError;
use std::ops::Range;
use vstd::prelude::*;

verus! {

/// One gibibyte, the size of the memory unless it is configured.
pub const GIB: u64 = 0x4000_0000;

/// A letter in lower case, if it is an ASCII one.
pub open spec fn lower(c: char) -> u32 {
    if 0x41 <= c as u32 <= 0x5a {
        (c as u32 + 0x20) as u32
    } else {
        c as u32
    }
}

fn to_lower(c: char) -> (r: u32)
    ensures
        r == lower(c),
{
    let code: u32 = c as u32;
    if 0x41 <= code && code <= 0x5a {
        code + 0x20
    } else {
        code
    }
}

/// Whether a unit is a letter, alone or followed by `ib`, in either case.
pub open spec fn is_unit(unit: Seq<char>, letter: char) -> bool {
    &&& unit.len() == 1 || unit.len() == 3
    &&& lower(unit[0]) == letter as u32
    &&& unit.len() == 3 ==> lower(unit[1]) == 'i' as u32 && lower(unit[2]) == 'b' as u32
}

/// How many bytes a unit stands for: nothing, `G` or `GiB` for gibibytes, and
/// `M`, `MiB`, `K` and `KiB`, in either case.
pub open spec fn unit_bytes(unit: Seq<char>) -> Option<u64> {
    if unit.len() == 0 || is_unit(unit, 'g') {
        Some(GIB)
    } else if is_unit(unit, 'm') {
        Some(0x10_0000)
    } else if is_unit(unit, 'k') {
        Some(0x400)
    } else {
        None
    }
}

/// How many decimal digits a text starts with.
pub open spec fn leading_digits(text: Seq<char>) -> nat
    decreases text.len(),
{
    if text.len() == 0 || !('0' <= text[0] <= '9') {
        0
    } else {
        1 + leading_digits(text.subrange(1, text.len() as int))
    }
}

/// The size that a text without white space at its ends denotes.
pub open spec fn size_of_text(text: Seq<char>) -> Result<u64, SizeError> {
    let n = leading_digits(text) as int;
    match crate::text::number_of(text.subrange(0, n), 10) {
        None => Err(SizeError::NotANumber),
        Some(number) => match unit_bytes(text.subrange(n, text.len() as int)) {
            None => Err(SizeError::UnknownSuffix),
            Some(unit) => if number * unit > u64::MAX {
                Err(SizeError::Overflow)
            } else if number * unit == 0 || (number * unit) % 0x1000 != 0 {
                Err(SizeError::Unaligned)
            } else {
                Ok((number * unit) as u64)
            },
        },
    }
}

fn unit_is(text: &Vec<char>, from: usize, letter: char) -> (r: bool)
    requires
        from <= text@.len(),
        letter == 'g' || letter == 'm' || letter == 'k',
    ensures
        r == is_unit(text@.subrange(from as int, text@.len() as int), letter),
{
    let count: usize = text.len() - from;
    if count != 1 && count != 3 {
        return false;
    }
    if to_lower(text[from]) != letter as u32 {
        return false;
    }
    count == 1 || (to_lower(text[from + 1]) == 'i' as u32 && to_lower(text[from + 2]) == 'b' as u32)
}

fn unit_of(text: &Vec<char>, from: usize) -> (r: Option<u64>)
    requires
        from <= text@.len(),
    ensures
        r == unit_bytes(text@.subrange(from as int, text@.len() as int)),
{
    if from == text.len() || unit_is(text, from, 'g') {
        Some(GIB)
    } else if unit_is(text, from, 'm') {
        Some(1024 * 1024)
    } else if unit_is(text, from, 'k') {
        Some(1024)
    } else {
        None
    }
}

fn digits(text: &Vec<char>) -> (r: usize)
    ensures
        r == leading_digits(text@),
        r <= text@.len(),
{
    let mut n: usize = 0;
    assert(text@.subrange(0, text@.len() as int) =~= text@);
    while n < text.len() && '0' <= text[n] && text[n] <= '9'
        invariant
            n <= text@.len(),
            leading_digits(text@) == n + leading_digits(
                text@.subrange(n as int, text@.len() as int),
            ),
        decreases text@.len() - n,
    {
        assert(text@.subrange(n as int, text@.len() as int).subrange(1, text@.len() - n)
            =~= text@.subrange(n + 1, text@.len() as int));
        n = n + 1;
    }
    n
}

/// Read a memory size: a number with an optional KiB, MiB or GiB suffix,
/// gibibytes without one.
pub fn parse_size(value: &str) -> (r: Result<u64, SizeError>)
    ensures
        r == size_of_text(crate::text::trimmed(value@)),
{
    let all: Vec<char> = crate::text::chars_of(value);
    let text: Vec<char> = crate::text::trim(&all);
    let n: usize = digits(&text);
    let number: u64 = match crate::text::parse_number(&text, 0, n, 10) {
        Some(number) => number,
        None => return Err(SizeError::NotANumber),
    };
    let unit: u64 = match unit_of(&text, n) {
        Some(unit) => unit,
        None => return Err(SizeError::UnknownSuffix),
    };
    let size: u64 = match number.checked_mul(unit) {
        Some(size) => size,
        None => return Err(SizeError::Overflow),
    };
    if size == 0 || size % 4096 != 0 {
        return Err(SizeError::Unaligned);
    }
    Ok(size)
}

/// A size that is accepted is a positive number of whole pages.
pub proof fn law_sizes_are_whole_pages(text: Seq<char>)
    ensures
        size_of_text(text) matches Ok(size) ==> size > 0 && size % 0x1000 == 0,
{
}

/// The size that the first `n` parameters ask for: the last one counts, and the
/// first that is wrong spoils them all.
pub open spec fn configured_size(params: Seq<(&str, &str)>, n: int) -> Result<u64, ParameterError>
    decreases n,
{
    if n <= 0 {
        Ok(GIB)
    } else {
        match configured_size(params, n - 1) {
            Err(err) => Err(err),
            Ok(_) => if params[n - 1].0@ == "memory"@ {
                match size_of_text(crate::text::trimmed(params[n - 1].1@)) {
                    Ok(size) => Ok(size),
                    Err(err) => Err(ParameterError::Memory(err)),
                }
            } else {
                Err(ParameterError::Unknown { index: (n - 1) as usize })
            },
        }
    }
}

proof fn lemma_first_error_stays(params: Seq<(&str, &str)>, k: int, n: int)
    requires
        0 <= k <= n,
        configured_size(params, k) is Err,
    ensures
        configured_size(params, n) == configured_size(params, k),
    decreases n,
{
    if k < n {
        lemma_first_error_stays(params, k, n - 1);
    }
}

/// The probe for auto-detection. It offers the backend only inside a TD that
/// was created as an L1 VMM, because the alternative is a partition that fails
/// much later with a TDCALL status code.
pub struct TdpProbe;

impl TdpProbe {
    pub fn name(&self) -> (r: &str)
        ensures
            r@ == "tdp"@,
    {
        "tdp"
    }

    /// How much memory to reserve for a partition nobody configured, if L2 VMs
    /// can be run at all.
    pub fn try_new_resource(&self, available: bool) -> (r: Option<u64>)
        ensures
            r == (if available {
                Some(GIB)
            } else {
                None
            }),
    {
        if !available {
            return None;
        }
        Some(GIB)
    }

    /// How much memory to reserve for a partition with these parameters.
    pub fn new_resource(&self, params: &Vec<(&str, &str)>) -> (r: Result<u64, ParameterError>)
        ensures
            r == configured_size(params@, params@.len() as int),
    {
        let mut memory_size: u64 = GIB;
        let mut i: usize = 0;
        while i < params.len()
            invariant
                i <= params@.len(),
                configured_size(params@, i as int) == Ok::<u64, ParameterError>(memory_size),
            decreases params@.len() - i,
        {
            let (key, val): (&str, &str) = params[i];
            if !crate::text::same_text(key, "memory") {
                proof {
                    lemma_first_error_stays(params@, i + 1, params@.len() as int);
                }
                return Err(ParameterError::Unknown { index: i });
            }
            match parse_size(val) {
                Ok(size) => {
                    memory_size = size;
                },
                Err(err) => {
                    proof {
                        lemma_first_error_stays(params@, i + 1, params@.len() as int);
                    }
                    return Err(ParameterError::Memory(err));
                },
            }
            i = i + 1;
        }
        Ok(memory_size)
    }
}

/// Memory ranges as the worker is told of them: where each starts, and how long
/// it is.
pub fn handle_ranges(ranges: &Vec<Range<u64>>) -> (r: Vec<(u64, u64)>)
    requires
        forall|i: int| 0 <= i < ranges@.len() ==> (#[trigger] ranges@[i]).start <= ranges@[i].end,
    ensures
        r@.len() == ranges@.len(),
        forall|i: int|
            0 <= i < r@.len() ==> {
                &&& (#[trigger] r@[i]).0 == ranges@[i].start
                &&& r@[i].0 + r@[i].1 == ranges@[i].end
            },
{
    let mut pairs: Vec<(u64, u64)> = Vec::new();
    let mut i: usize = 0;
    while i < ranges.len()
        invariant
            i <= ranges@.len(),
            pairs@.len() == i,
            forall|k: int|
                0 <= k < ranges@.len() ==> (#[trigger] ranges@[k]).start <= ranges@[k].end,
            forall|k: int|
                0 <= k < i ==> {
                    &&& (#[trigger] pairs@[k]).0 == ranges@[k].start
                    &&& pairs@[k].0 + pairs@[k].1 == ranges@[k].end
                },
        decreases ranges@.len() - i,
    {
        let start: u64 = ranges[i].start;
        let end: u64 = ranges[i].end;
        pairs.push((start, end - start));
        i = i + 1;
    }
    pairs
}

/// Where a worker gets its region from.
#[derive(Debug, Clone, Copy, PartialEq, Eq, Structural)]
pub enum RegionSource {
    /// Map the descriptor that was handed over, which gives the same physical
    /// pages the layout was built from.
    Descriptor,
    /// Allocate a region.
    Allocate,
}

/// The resolver that turns a description of the backend into the backend.
pub struct TdpResolver;

impl TdpResolver {
    /// Where the region comes from.
    pub fn region_source(&self, has_descriptor: bool) -> (r: RegionSource)
        ensures
            r == (if has_descriptor {
                RegionSource::Descriptor
            } else {
                RegionSource::Allocate
            }),
    {
        if has_descriptor {
            RegionSource::Descriptor
        } else {
            RegionSource::Allocate
        }
    }
}

/// A unit is a letter or a letter and `ib`, in either case: gibibytes, mebibytes
/// or kibibytes, and gibibytes without a unit. Nothing else is one.
pub proof fn law_units_are_binary(unit: Seq<char>)
    ensures
        ({
            let bytes = unit_bytes(unit);
            let shaped = unit.len() == 1 || (unit.len() == 3 && (unit[1] == 'i' || unit[1] == 'I')
                && (unit[2] == 'b' || unit[2] == 'B'));
            let giga = unit[0] == 'g' || unit[0] == 'G';
            let mega = unit[0] == 'm' || unit[0] == 'M';
            let kilo = unit[0] == 'k' || unit[0] == 'K';
            &&& unit.len() == 0 ==> bytes == Some((1024 * 1024 * 1024) as u64)
            &&& shaped && giga ==> bytes == Some((1024 * 1024 * 1024) as u64)
            &&& shaped && mega ==> bytes == Some((1024 * 1024) as u64)
            &&& shaped && kilo ==> bytes == Some(1024u64)
            &&& bytes is Some <==> unit.len() == 0 || (shaped && (giga || mega || kilo))
        }),
{
    if unit.len() >= 1 {
        lemma_lower_letters(unit[0]);
    }
    if unit.len() == 3 {
        lemma_lower_letters(unit[1]);
        lemma_lower_letters(unit[2]);
    }
}

proof fn lemma_lower_letters(c: char)
    ensures
        lower(c) == 'g' as u32 <==> c == 'g' || c == 'G',
        lower(c) == 'm' as u32 <==> c == 'm' || c == 'M',
        lower(c) == 'k' as u32 <==> c == 'k' || c == 'K',
        lower(c) == 'i' as u32 <==> c == 'i' || c == 'I',
        lower(c) == 'b' as u32 <==> c == 'b' || c == 'B',
{
}

/// The leading digits are all the digits a text starts with: each of them is one,
/// and what follows them is not.
pub proof fn law_leading_digits_end_at_the_first_other_character(text: Seq<char>, k: int)
    ensures
        ({
            let n = leading_digits(text);
            &&& n <= text.len()
            &&& 0 <= k < n ==> '0' <= text[k] <= '9'
            &&& n < text.len() ==> !('0' <= text[n as int] <= '9')
        }),
    decreases text.len(),
{
    if text.len() > 0 && '0' <= text[0] <= '9' {
        let rest = text.subrange(1, text.len() as int);
        law_leading_digits_end_at_the_first_other_character(rest, k - 1);
        if k > 0 && k < leading_digits(text) {
            assert(rest[k - 1] == text[k]);
        }
    }
}

/// A size is the number at the start of the text times the unit behind it. It is
/// refused if there is no number, if what follows is no unit, if the product does
/// not fit in 64 bits, and if it is not a positive number of whole pages, in this
/// order, and only then.
pub proof fn law_sizes_are_numbers_times_units(text: Seq<char>)
    ensures
        ({
            let n = leading_digits(text) as int;
            let number = crate::text::number_of(text.subrange(0, n), 10);
            let unit = unit_bytes(text.subrange(n, text.len() as int));
            let size = number->0 * unit->0;
            let result = size_of_text(text);
            &&& number is None ==> result == Err::<u64, SizeError>(SizeError::NotANumber)
            &&& number is Some && unit is None ==> result == Err::<u64, SizeError>(
                SizeError::UnknownSuffix,
            )
            &&& number is Some && unit is Some ==> {
                &&& size >= 0x1_0000_0000_0000_0000 ==> result == Err::<u64, SizeError>(
                    SizeError::Overflow,
                )
                &&& size < 0x1_0000_0000_0000_0000 && !(size > 0 && size % 4096 == 0) ==> result
                    == Err::<u64, SizeError>(SizeError::Unaligned)
                &&& 0 < size < 0x1_0000_0000_0000_0000 && size % 4096 == 0 ==> result == Ok::<
                    u64,
                    SizeError,
                >(size as u64)
            }
        }),
{
}

/// Whether a parameter is the memory size, and a usable one.
pub open spec fn is_memory_size(param: (&str, &str)) -> bool {
    param.0@ == "memory"@ && size_of_text(crate::text::trimmed(param.1@)) is Ok
}

/// Of the parameters the last memory size counts, one gibibyte if there is none.
/// The first parameter that is unknown or wrong spoils them all, and is what is
/// reported.
pub proof fn law_last_memory_size_counts(params: Seq<(&str, &str)>, n: int, k: int)
    requires
        0 <= n <= params.len(),
    ensures
        ({
            let result = configured_size(params, n);
            &&& n == 0 ==> result == Ok::<u64, ParameterError>((1024 * 1024 * 1024) as u64)
            &&& result is Ok <==> forall|j: int| 0 <= j < n ==> is_memory_size(#[trigger] params[j])
            &&& n > 0 ==> (result matches Ok(size) ==> size_of_text(
                crate::text::trimmed(params[n - 1].1@),
            ) == Ok::<u64, SizeError>(size))
            &&& 0 <= k < n && !is_memory_size(params[k]) && (forall|j: int|
                0 <= j < k ==> is_memory_size(#[trigger] params[j])) ==> result == Err::<
                u64,
                ParameterError,
            >(
                if params[k].0@ == "memory"@ {
                    ParameterError::Memory(
                        size_of_text(crate::text::trimmed(params[k].1@))->Err_0,
                    )
                } else {
                    ParameterError::Unknown { index: k as usize }
                },
            )
        }),
    decreases n,
{
    if n > 0 {
        law_last_memory_size_counts(params, n - 1, k);
    }
}

/// Without a configuration a partition gets one gibibyte, if L2 VMs can be run at
/// all, and a worker maps the descriptor it was handed or else allocates.
pub proof fn law_unconfigured_partitions(
    probe: &TdpProbe,
    available: bool,
    resource: Option<u64>,
    resolver: &TdpResolver,
    has_descriptor: bool,
    source: RegionSource,
)
    requires
        call_ensures(TdpProbe::try_new_resource, (probe, available), resource),
        call_ensures(TdpResolver::region_source, (resolver, has_descriptor), source),
    ensures
        resource is Some <==> available,
        resource matches Some(size) ==> size == 1024 * 1024 * 1024,
        source is Descriptor <==> has_descriptor,
{
}

} // verus!
