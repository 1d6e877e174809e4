use vstd::prelude::*;
use crate::error::{MuxError, import_error, is_import_error, overflow};

verus! {

/// The 27 MHz PCR wrap period (the 33-bit base times 300).
pub open spec fn max_pcr_27m() -> int {
    2_576_980_377_811
}

/// The program clock reference state of the program being imported.
#[derive(Clone, Copy, Debug, PartialEq, Eq)]
pub struct TransportProgramClockState {
    pub pcr_pid: Option<u16>,
    pub before_last_pcr_value: Option<u64>,
    pub last_pcr_value: Option<u64>,
    pub pcr_base_offset_27m: i64,
    pub last_continuity_counter: Option<u8>,
}

/// Every recorded PCR lies within the 27 MHz wrap period.
pub open spec fn clock_values_in_range(state: TransportProgramClockState) -> bool {
    &&& state.before_last_pcr_value matches Some(v) ==> v <= max_pcr_27m()
    &&& state.last_pcr_value matches Some(v) ==> v <= max_pcr_27m()
}

/// Integer division rounding toward zero.
pub open spec fn div_toward_zero(a: int, b: int) -> int {
    if a >= 0 { a / b } else { -((-a) / b) }
}

/// `v` clamped into the `i64` range.
pub open spec fn clamp_i64(v: int) -> int {
    if v < i64::MIN { i64::MIN as int } else if v > i64::MAX { i64::MAX as int } else { v }
}

/// The difference of two PCR values, or zero when either does not fit `i64`.
pub open spec fn pcr_diff(later: u64, earlier: u64) -> int {
    if later > i64::MAX || earlier > i64::MAX { 0 } else { later - earlier }
}

/// Whether the continuity counter broke: with a PCR already recorded before the last one,
/// an adaptation-only packet must repeat the counter and any other must advance it by one.
pub open spec fn continuity_broken(state: TransportProgramClockState, adaptation_control: u8, continuity_counter: u8) -> bool {
    match (state.last_continuity_counter, state.before_last_pcr_value) {
        (Some(previous), Some(_)) => if adaptation_control == 2 {
            continuity_counter != previous
        } else {
            continuity_counter as int != ((previous as int + 1) % 256) % 16
        },
        _ => false,
    }
}

/// How a PCR moves the base offset: a wrap adds one wrap period; a continuity break or a
/// signalled discontinuity that is not a small step back or a step close to the previous
/// cadence, or an unsignalled jump of more than ten seconds that goes back or slightly back,
/// moves the offset so the timeline continues from the previous cadence.
pub open spec fn offset_after_pcr(offset: i64, before_last: u64, prev_diff: int, pcr_27m: u64, discontinuity: bool) -> i64 {
    let diff = pcr_diff(pcr_27m, before_last);
    let prev_diff_us = div_toward_zero(prev_diff, 27);
    let diff_us = div_toward_zero(diff, 27);
    let wrapped = !discontinuity && abs_diff(diff) > 270_000_000 && pcr_27m < before_last
        && max_pcr_27m() - before_last < 5_400_000;
    let adjust = if discontinuity {
        !((-200_000 <= diff_us < 0) || (diff_us > 0 && abs_diff(diff_us - prev_diff_us) < 200_000))
    } else if abs_diff(diff) > 270_000_000 {
        (-200_000 <= diff_us < 0) || pcr_27m < before_last
    } else {
        false
    };
    if wrapped {
        clamp_i64(offset + max_pcr_27m()) as i64
    } else if adjust {
        clamp_i64(offset + clamp_i64(before_last + prev_diff_us * 27 - pcr_27m)) as i64
    } else {
        offset
    }
}

/// The clock state after a PCR of the program's PCR PID: the counters and the last two PCRs
/// move along; a first PCR near the end of the wrap period records a synthetic earlier PCR;
/// later PCRs move the base offset as [`offset_after_pcr`] says.
pub open spec fn clock_after_pcr(
    state: TransportProgramClockState,
    pid: u16,
    adaptation_control: u8,
    continuity_counter: u8,
    discontinuity_signaled: bool,
    pcr_27m: u64,
) -> TransportProgramClockState {
    if state.pcr_pid != Some(pid) {
        state
    } else {
        let prev_diff = match (state.before_last_pcr_value, state.last_pcr_value) {
            (Some(before), Some(last)) => pcr_diff(last, before),
            _ => 0,
        };
        let base = TransportProgramClockState {
            last_continuity_counter: Some(continuity_counter),
            before_last_pcr_value: state.last_pcr_value,
            last_pcr_value: Some(if pcr_27m >= 1 { pcr_27m } else { 1 }),
            ..state
        };
        match state.last_pcr_value {
            None => if pcr_27m > 9 * max_pcr_27m() / 10 {
                let synthetic = if max_pcr_27m() - pcr_27m > 4_800 { max_pcr_27m() - 4_800 } else { max_pcr_27m() };
                TransportProgramClockState { before_last_pcr_value: Some(synthetic as u64), ..base }
            } else {
                base
            },
            Some(before_last) => TransportProgramClockState {
                pcr_base_offset_27m: offset_after_pcr(
                    state.pcr_base_offset_27m,
                    before_last,
                    prev_diff,
                    pcr_27m,
                    discontinuity_signaled || continuity_broken(state, adaptation_control, continuity_counter),
                ),
                ..base
            },
        }
    }
}

/// `v / 27` rounded toward zero.
fn div27(v: i64) -> (r: i64)
    requires
        v > i64::MIN,
    ensures
        r == div_toward_zero(v as int, 27),
        -0x4BDA_12F6_84BD_A12 <= r <= 0x4BDA_12F6_84BD_A12,
{
    if v >= 0 { v / 27 } else { -((-v) / 27) }
}

/// The new base offset after a PCR that follows an earlier one.
fn offset_after(offset: i64, before_last: u64, prev_diff: i64, pcr_27m: u64, discontinuity: bool) -> (r: i64)
    requires
        prev_diff > i64::MIN,
        before_last <= max_pcr_27m(),
        pcr_27m <= max_pcr_27m(),
    ensures
        r == offset_after_pcr(offset, before_last, prev_diff as int, pcr_27m, discontinuity),
{
    let diff = pcr_difference(pcr_27m, before_last);
    let prev_diff_us = div27(prev_diff);
    let diff_us = div27(diff);
    let diff_magnitude: i64 = if diff < 0 { -diff } else { diff };
    let wrapped = !discontinuity && diff_magnitude > 270_000_000 && pcr_27m < before_last
        && 2_576_980_377_811u64 - before_last < 5_400_000;
    if wrapped {
        return saturating_add_i64(offset, 2_576_980_377_811i64);
    }
    let adjust = if discontinuity {
        let change = diff_us - prev_diff_us;
        let change_magnitude: i64 = if change < 0 { -change } else { change };
        !((-200_000 <= diff_us && diff_us < 0) || (diff_us > 0 && change_magnitude < 200_000))
    } else if diff_magnitude > 270_000_000 {
        (-200_000 <= diff_us && diff_us < 0) || pcr_27m < before_last
    } else {
        false
    };
    if adjust {
        let expected: i128 = (before_last as i128) + (prev_diff_us as i128) * 27;
        let delta: i128 = expected - (pcr_27m as i128);
        let clamped: i64 = if delta < -0x8000_0000_0000_0000 {
            -0x8000_0000_0000_0000
        } else if delta > 0x7FFF_FFFF_FFFF_FFFF {
            0x7FFF_FFFF_FFFF_FFFF
        } else {
            delta as i64
        };
        saturating_add_i64(offset, clamped)
    } else {
        offset
    }
}

/// `|v|`.
pub open spec fn abs_diff(v: int) -> int {
    if v < 0 { -v } else { v }
}

/// The signed difference of two PCR values, zero when either does not fit `i64`.
fn pcr_difference(later: u64, earlier: u64) -> (r: i64)
    ensures
        r == pcr_diff(later, earlier),
{
    if later > 0x7FFF_FFFF_FFFF_FFFF || earlier > 0x7FFF_FFFF_FFFF_FFFF {
        0
    } else {
        (later as i64) - (earlier as i64)
    }
}

/// `a + b`, saturating at the `i64` bounds.
fn saturating_add_i64(a: i64, b: i64) -> (r: i64)
    ensures
        r == clamp_i64(a + b),
{
    match a.checked_add(b) {
        Some(v) => v,
        None => if b > 0 { 0x7FFF_FFFF_FFFF_FFFF } else { -0x8000_0000_0000_0000 },
    }
}

/// Folds a PCR of the program's PCR PID into the clock state.
pub fn update_transport_program_clock(
    state: &mut TransportProgramClockState,
    pid: u16,
    adaptation_control: u8,
    continuity_counter: u8,
    discontinuity_signaled: bool,
    pcr_27m: u64,
)
    requires
        clock_values_in_range(*old(state)),
        pcr_27m <= max_pcr_27m(),
    ensures
        *final(state) == clock_after_pcr(*old(state), pid, adaptation_control, continuity_counter, discontinuity_signaled, pcr_27m),
        clock_values_in_range(*final(state)),
{
    if state.pcr_pid != Some(pid) {
        return;
    }
    let continuity_break = match (state.last_continuity_counter, state.before_last_pcr_value) {
        (Some(previous), Some(_)) => if adaptation_control == 2 {
            continuity_counter != previous
        } else {
            continuity_counter != (previous.wrapping_add(1) % 16)
        },
        _ => false,
    };
    assert(continuity_break == continuity_broken(*old(state), adaptation_control, continuity_counter));
    state.last_continuity_counter = Some(continuity_counter);
    let prev_diff: i64 = match (state.before_last_pcr_value, state.last_pcr_value) {
        (Some(before), Some(last)) => pcr_difference(last, before),
        _ => 0,
    };
    let previous_last = state.last_pcr_value;
    state.before_last_pcr_value = previous_last;
    state.last_pcr_value = Some(if pcr_27m >= 1 { pcr_27m } else { 1 });
    match previous_last {
        None => {
            if pcr_27m > 2_319_282_340_029 {
                let synthetic: u64 = if 2_576_980_377_811u64 - pcr_27m > 4_800 { 2_576_980_377_811u64 - 4_800 } else { 2_576_980_377_811u64 };
                state.before_last_pcr_value = Some(synthetic);
            }
        },
        Some(before_last) => {
            state.pcr_base_offset_27m = offset_after(
                state.pcr_base_offset_27m,
                before_last,
                prev_diff,
                pcr_27m,
                discontinuity_signaled || continuity_break,
            );
        },
    }
}

/// The 90 kHz timestamp translated onto the program timeline: past a PCR near the end of its
/// wrap, a small timestamp is moved one wrap forward; the base offset is added (at 90 kHz),
/// less one wrap when a timestamp near the wrap meets a PCR that already wrapped.
pub open spec fn translated_timestamp(state: TransportProgramClockState, pts_90k: u64) -> int {
    match state.last_pcr_value {
        None => pts_90k as int,
        Some(last) => {
            let looped = if last > 9 * max_pcr_27m() / 10 && pts_90k < 8_589_934_592int / 10 {
                pts_90k + 8_589_934_592
            } else {
                pts_90k as int
            };
            let offset_90k = div_toward_zero(state.pcr_base_offset_27m as int, 300);
            if 8_589_934_592 < 20_000 + pts_90k && last < 27_000_000 {
                looped + offset_90k - 8_589_934_592
            } else {
                looped + offset_90k
            }
        },
    }
}

/// Translates a PES timestamp onto the program timeline.
pub fn translate_transport_timestamp_90k(state: &TransportProgramClockState, pts_90k: u64) -> (r: Result<u64, MuxError>)
    requires
        pts_90k <= u64::MAX - 20_000,
    ensures
        0 <= translated_timestamp(*state, pts_90k) <= u64::MAX ==> r == Ok::<u64, MuxError>(translated_timestamp(*state, pts_90k) as u64),
        translated_timestamp(*state, pts_90k) < 0 ==> (r matches Err(e) && is_import_error(e, "transport stream"@)),
        translated_timestamp(*state, pts_90k) > u64::MAX ==> (r matches Err(e) && e is LayoutOverflow),
{
    let mut translated: i128 = pts_90k as i128;
    match state.last_pcr_value {
        None => {},
        Some(last) => {
            if last > 2_319_282_340_029 && pts_90k < 858_993_459 {
                translated = translated + 8_589_934_592;
            }
            let offset_90k = (state.pcr_base_offset_27m / 300) as i128;
            if 8_589_934_592 < 20_000 + pts_90k && last < 27_000_000 {
                translated = translated + offset_90k - 8_589_934_592;
            } else {
                translated = translated + offset_90k;
            }
        },
    }
    if translated < 0 {
        return Err(import_error("transport stream", "translated transport timestamp became negative"));
    }
    if translated > 0xFFFF_FFFF_FFFF_FFFF {
        return Err(overflow("transport-stream timestamp translation"));
    }
    Ok(translated as u64)
}

} // verus!
