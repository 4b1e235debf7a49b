//! Message identifiers: the time they carry, and their strict order.

use std::time::{Duration, SystemTime, SystemTimeError, UNIX_EPOCH};

use vstd::prelude::*;

verus! {

/// A point in time as the system clock gives it.
#[verifier::external_type_specification]
#[verifier::external_body]
pub struct ExSystemTime(SystemTime);

/// What the system clock reports of a time that lies before another.
#[verifier::external_type_specification]
#[verifier::external_body]
pub struct ExSystemTimeError(SystemTimeError);

/// `SystemTime::now`: the clock's present reading. It rests on the machine, so
/// nothing is said of it.
pub assume_specification[ SystemTime::now ]() -> SystemTime
;

/// `SystemTime::duration_since` of the Unix epoch: how long after the epoch `t`
/// lies, or an error where it lies before. It rests on what the clock read, so
/// nothing is said of it.
#[verifier::external_body]
fn since_epoch(t: &SystemTime) -> Result<Duration, SystemTimeError> {
    t.duration_since(UNIX_EPOCH)
}

/// `Duration::as_secs`: the whole seconds of a duration.
pub assume_specification[ Duration::as_secs ](d: &Duration) -> u64
;

/// `Duration::subsec_nanos`: the nanoseconds past the last whole second, which
/// are fewer than a billion.
pub assume_specification[ Duration::subsec_nanos ](d: &Duration) -> (r: u32)
    ensures
        r < 1_000_000_000,
;

/// Why no message identifier could be issued.
#[derive(Clone, Copy, Debug, PartialEq, Eq, Structural)]
pub enum MsgIdError {
    /// The system clock reads a time before the Unix epoch.
    ClockBeforeEpoch,
    /// No identifier is left that is greater than the last one.
    Exhausted,
}

/// The last identifiers issued: those of plaintext messages and those of
/// encrypted messages count apart.
#[derive(Clone, Copy, Debug, PartialEq, Eq, Structural)]
pub struct MsgIds {
    pub plaintext: i64,
    pub response: i64,
}

impl MsgIds {
    /// No identifier issued yet.
    pub fn new() -> (r: MsgIds)
        ensures
            r.plaintext == 0,
            r.response == 0,
    {
        MsgIds { plaintext: 0, response: 0 }
    }
}

/// The part of a second that `nanos` nanoseconds are, scaled to `2^32` and
/// rounded down to a multiple of four.
pub open spec fn fraction(nanos: int) -> int {
    (nanos * 0x1_0000_0000 / 1_000_000_000) / 4 * 4
}

/// The identifier that the time calls for: the low 32 bits of the seconds since
/// the epoch in its high half, the fraction of the second in its low half, and
/// one added to mark the sender.
pub open spec fn candidate(secs: int, nanos: int) -> int {
    let v = (secs % 0x1_0000_0000) * 0x1_0000_0000 + fraction(nanos) + 1;
    if v < 0x8000_0000_0000_0000 {
        v
    } else {
        v - 0x1_0000_0000_0000_0000
    }
}

/// The identifier issued after `last`: what the time calls for where that is
/// greater, else the last one rounded down to a multiple of four, plus five.
pub open spec fn id_after(last: int, wanted: int) -> int {
    if wanted > last {
        wanted
    } else {
        last / 4 * 4 + 5
    }
}

/// Whether an identifier greater than `last` can still be issued.
pub open spec fn can_issue(last: int, wanted: int) -> bool {
    wanted > last || last <= i64::MAX - 4
}

/// The identifier that the time calls for.
pub fn wanted_id(secs: u64, nanos: u32) -> (r: i64)
    requires
        nanos < 1_000_000_000,
    ensures
        r == candidate(secs as int, nanos as int),
        r % 4 == 1,
{
    let scaled: u64 = ((nanos as u64) << 32) / 1_000_000_000;
    let frac: i64 = scaled as i64 & 0xffff_fffc;
    let high: i64 = (secs as i64) << 32;
    let r: i64 = high | frac | 1;
    proof {
        let n: u64 = nanos as u64;
        assert(n < 1_000_000_000 ==> (n << 32) as int == n * 0x1_0000_0000) by (bit_vector);
        assert(scaled == nanos * 0x1_0000_0000 / 1_000_000_000);
        assert(scaled < 0x1_0000_0000);
        assert(scaled < 0x1_0000_0000 ==> (scaled as i64 & 0xffff_fffci64) as int == scaled / 4 * 4)
            by (bit_vector);
        assert(frac == fraction(nanos as int));
        let low: u64 = secs % 0x1_0000_0000;
        assert(((((secs as i64) << 32) | frac | 1i64) as int) == if low < 0x8000_0000 {
            low * 0x1_0000_0000 + frac + 1
        } else {
            low * 0x1_0000_0000 + frac + 1 - 0x1_0000_0000_0000_0000
        }) by (bit_vector)
            requires
                0 <= frac < 0x1_0000_0000,
                frac % 4 == 0,
                low == secs % 0x1_0000_0000,
        ;
    }
    r
}

/// Issues the next identifier after `*last` at the time of `secs` seconds and
/// `nanos` nanoseconds past the epoch.
pub fn next_msg_id_at(last: &mut i64, secs: u64, nanos: u32) -> (r: i64)
    requires
        nanos < 1_000_000_000,
        can_issue(*old(last) as int, candidate(secs as int, nanos as int)),
    ensures
        r == id_after(*old(last) as int, candidate(secs as int, nanos as int)),
        *final(last) == r,
        r > *old(last),
        r % 4 == 1,
{
    let wanted: i64 = wanted_id(secs, nanos);
    let prev: i64 = *last;
    let target: i64 = if wanted > prev {
        wanted
    } else {
        proof {
            assert((prev & !3i64) as int == prev as int - (prev as int) % 4) by (bit_vector);
        }
        (prev & !3i64) + 5
    };
    *last = target;
    target
}

/// Whether `id` is an identifier that some reading of the clock has issued
/// after `last`.
pub open spec fn issued(last: i64, id: i64) -> bool {
    &&& id > last
    &&& id % 4 == 1
    &&& exists|secs: u64, nanos: u32|
        nanos < 1_000_000_000 && id == id_after(
            last as int,
            #[trigger] candidate(secs as int, nanos as int),
        )
}

/// Issues the next identifier after `*last` by a reading of the clock, in seconds
/// and nanoseconds past the epoch; there is none where the clock reads a time
/// before the epoch.
///
/// Where none is issued, `*last` stays.
pub fn next_msg_id_by(last: &mut i64, reading: Option<(u64, u32)>) -> (r: Result<i64, MsgIdError>)
    requires
        reading matches Some((_, nanos)) ==> nanos < 1_000_000_000,
    ensures
        match reading {
            None => r == Err::<i64, MsgIdError>(MsgIdError::ClockBeforeEpoch) && *final(last) == *old(last),
            Some((secs, nanos)) => {
                let wanted = candidate(secs as int, nanos as int);
                if can_issue(*old(last) as int, wanted) {
                    &&& r matches Ok(id)
                    &&& id == id_after(*old(last) as int, wanted)
                    &&& id > *old(last)
                    &&& id % 4 == 1
                    &&& *final(last) == id
                } else {
                    r == Err::<i64, MsgIdError>(MsgIdError::Exhausted) && *final(last) == *old(last)
                }
            },
        },
{
    match reading {
        None => Err(MsgIdError::ClockBeforeEpoch),
        Some((secs, nanos)) => {
            if wanted_id(secs, nanos) <= *last && *last > i64::MAX - 4 {
                return Err(MsgIdError::Exhausted);
            }
            Ok(next_msg_id_at(last, secs, nanos))
        },
    }
}

/// Issues the next identifier after `*last` at the system clock's present time.
///
/// Where none is issued, `*last` stays.
pub fn next_msg_id(last: &mut i64) -> (r: Result<i64, MsgIdError>)
    ensures
        match r {
            Ok(id) => issued(*old(last), id) && *final(last) == id,
            Err(MsgIdError::ClockBeforeEpoch) => *final(last) == *old(last),
            Err(MsgIdError::Exhausted) => *final(last) == *old(last) && *old(last) > i64::MAX - 4,
        },
{
    let now: SystemTime = SystemTime::now();
    let reading: Option<(u64, u32)> = match since_epoch(&now) {
        Ok(elapsed) => Some((elapsed.as_secs(), elapsed.subsec_nanos())),
        Err(_) => None,
    };
    next_msg_id_by(last, reading)
}

/// Issues the identifier of the next plaintext message.
pub fn generate_plaintext_msg_id(ids: &mut MsgIds) -> (r: Result<i64, MsgIdError>)
    ensures
        final(ids).response == old(ids).response,
        match r {
            Ok(id) => issued(old(ids).plaintext, id) && final(ids).plaintext == id,
            Err(e) => {
                &&& final(ids).plaintext == old(ids).plaintext
                &&& e is Exhausted ==> old(ids).plaintext > i64::MAX - 4
            },
        },
{
    next_msg_id(&mut ids.plaintext)
}

/// Issues the identifier of the next encrypted message.
pub fn generate_response_msg_id(ids: &mut MsgIds) -> (r: Result<i64, MsgIdError>)
    ensures
        final(ids).plaintext == old(ids).plaintext,
        match r {
            Ok(id) => issued(old(ids).response, id) && final(ids).response == id,
            Err(e) => {
                &&& final(ids).response == old(ids).response
                &&& e is Exhausted ==> old(ids).response > i64::MAX - 4
            },
        },
{
    next_msg_id(&mut ids.response)
}

/// Identifiers that were issued one after the other grow strictly, however the
/// clock ran: of any two, the later one is the greater.
pub proof fn issued_ids_increase(ids: Seq<i64>, i: int, j: int)
    requires
        forall|k: int| 0 <= k < ids.len() - 1 ==> issued(#[trigger] ids[k], ids[k + 1]),
        0 <= i < j < ids.len(),
    ensures
        ids[i] < ids[j],
    decreases j,
{
    assert(issued(ids[j - 1], ids[j - 1 + 1]));
    if i < j - 1 {
        issued_ids_increase(ids, i, j - 1);
    }
}

/// The identifier that the time calls for carries the seconds in its high half
/// and the fraction of the second in its low half.
pub proof fn candidate_carries_time(secs: int, nanos: int)
    requires
        0 <= secs < 0x8000_0000,
        0 <= nanos < 1_000_000_000,
    ensures
        candidate(secs, nanos) / 0x1_0000_0000 == secs,
        candidate(secs, nanos) % 0x1_0000_0000 == fraction(nanos) + 1,
        0 <= fraction(nanos) <= nanos * 0x1_0000_0000 / 1_000_000_000 < fraction(nanos) + 4,
{
}

/// A later time never calls for a smaller identifier.
pub proof fn candidate_follows_time(secs1: int, nanos1: int, secs2: int, nanos2: int)
    requires
        0 <= secs1 <= secs2 < 0x8000_0000,
        0 <= nanos1 < 1_000_000_000,
        0 <= nanos2 < 1_000_000_000,
        secs1 < secs2 || nanos1 <= nanos2,
    ensures
        candidate(secs1, nanos1) <= candidate(secs2, nanos2),
{
    candidate_carries_time(secs1, nanos1);
    candidate_carries_time(secs2, nanos2);
}

/// An identifier is never behind the clock: it is what the time calls for
/// wherever that is greater than the last one, and so carries that time.
/// Elsewhere it is the one number from two to five past the last one that is one
/// more than a multiple of four.
pub proof fn identifiers_keep_up_with_the_clock(last: int, wanted: int)
    ensures
        id_after(last, wanted) >= wanted,
        id_after(last, wanted) > last,
        wanted > last ==> id_after(last, wanted) == wanted,
        wanted <= last ==> last + 2 <= id_after(last, wanted) <= last + 5 && id_after(last, wanted) % 4 == 1,
{
}

/// Wherever the time calls for more than the last identifier, the one issued has
/// the seconds in its high half and the fraction of the second in its low half.
pub proof fn identifiers_carry_the_present_time(last: int, secs: int, nanos: int)
    requires
        0 <= secs < 0x8000_0000,
        0 <= nanos < 1_000_000_000,
        last / 0x1_0000_0000 < secs,
    ensures
        id_after(last, candidate(secs, nanos)) / 0x1_0000_0000 == secs,
        id_after(last, candidate(secs, nanos)) % 0x1_0000_0000 == nanos * 0x1_0000_0000 / 1_000_000_000 / 4 * 4 + 1,
{
    candidate_carries_time(secs, nanos);
}

/// The fraction in an identifier is the greatest multiple of four that is no
/// more than the nanoseconds scaled to `2^32` a second.
pub proof fn fraction_is_scaled_time(nanos: int)
    requires
        0 <= nanos < 1_000_000_000,
    ensures
        fraction(nanos) % 4 == 0,
        0 <= fraction(nanos) < 0x1_0000_0000,
        fraction(nanos) * 1_000_000_000 <= nanos * 0x1_0000_0000 < (fraction(nanos) + 4) * 1_000_000_000,
{
}

/// What the time calls for is, modulo `2^64`, the seconds in units of `2^32` and
/// the fraction, with one added: for every time, also past the year 2038.
pub proof fn candidate_wraps_around(secs: int, nanos: int)
    requires
        0 <= secs,
        0 <= nanos < 1_000_000_000,
    ensures
        i64::MIN <= candidate(secs, nanos) <= i64::MAX,
        candidate(secs, nanos) % 4 == 1,
        (candidate(secs, nanos) - (secs * 0x1_0000_0000 + fraction(nanos) + 1)) % 0x1_0000_0000_0000_0000 == 0,
{
    let q = secs / 0x1_0000_0000;
    assert(secs == q * 0x1_0000_0000 + secs % 0x1_0000_0000);
    assert(secs * 0x1_0000_0000 == q * 0x1_0000_0000_0000_0000 + (secs % 0x1_0000_0000) * 0x1_0000_0000);
}

/// An identifier can be issued exactly where the one that is due is a number of
/// 64 bits.
pub proof fn issuing_ends_with_the_numbers(last: i64, wanted: i64)
    ensures
        can_issue(last as int, wanted as int) <==> id_after(last as int, wanted as int) <= i64::MAX,
{
}

/// An identifier that was issued is greater than the one before it, and is either
/// one that a time calls for or at most five past the one before it.
pub proof fn issued_identifiers(last: i64, id: i64)
    requires
        issued(last, id),
    ensures
        id > last,
        id % 4 == 1,
        id <= last + 5 || exists|secs: u64, nanos: u32|
            nanos < 1_000_000_000 && id == #[trigger] candidate(secs as int, nanos as int),
{
    let (secs, nanos) = choose|secs: u64, nanos: u32|
        nanos < 1_000_000_000 && id == id_after(last as int, #[trigger] candidate(secs as int, nanos as int));
    identifiers_keep_up_with_the_clock(last as int, candidate(secs as int, nanos as int));
}

} // verus!
