//! Recognising the AOOSTAR USB UART among Windows PnP device instance IDs.
use vstd::prelude::*;

use crate::text::{chars_of, hex4, push_hex4, push_str};

verus! {

/// AOOSTAR LCD USB UART vendor id.
pub const AOOSTAR_UART_VID: u16 = 0x416;

/// AOOSTAR LCD USB UART product id.
pub const AOOSTAR_UART_PID: u16 = 0x90A1;

/// ASCII uppercase of one character (`char::to_ascii_uppercase`).
pub open spec fn ascii_upper(c: char) -> char {
    if 'a' <= c && c <= 'z' {
        ((c as u32) - 32) as char
    } else {
        c
    }
}

fn to_ascii_upper(c: char) -> (u: char)
    ensures
        u == ascii_upper(c),
{
    if 'a' <= c && c <= 'z' {
        let code = (c as u32) - 32;
        assert(0x41 <= code <= 0x5A);
        (code as u8) as char
    } else {
        c
    }
}

/// The instance-ID prefix of a USB device: `USB\VID_xxxx&PID_xxxx`.
pub open spec fn instance_prefix(vid: u16, pid: u16) -> Seq<char> {
    "USB\\VID_"@ + hex4(vid) + "&PID_"@ + hex4(pid)
}

/// True if `instance` names the device node of USB `vid`/`pid` itself
/// (case-insensitive), not one of its composite interface nodes: the
/// prefix must be followed by `\`.
pub open spec fn spec_is_our_instance(instance: Seq<char>, vid: u16, pid: u16) -> bool {
    let up = instance.map_values(|c: char| ascii_upper(c));
    let prefix = instance_prefix(vid, pid);
    &&& up.len() > prefix.len()
    &&& up.take(prefix.len() as int) == prefix
    &&& up[prefix.len() as int] == '\\'
}

/// Matching ignores ASCII case: an instance ID matches exactly when its
/// upper-case form does.
pub proof fn lemma_instance_match_ignores_case(instance: Seq<char>, vid: u16, pid: u16)
    ensures
        spec_is_our_instance(instance, vid, pid) == spec_is_our_instance(
            instance.map_values(|c: char| ascii_upper(c)),
            vid,
            pid,
        ),
{
    let up = instance.map_values(|c: char| ascii_upper(c));
    assert forall|i: int| 0 <= i < up.len() implies #[trigger] ascii_upper(up[i]) == up[i] by {
        let c = instance[i];
        if 'a' <= c && c <= 'z' {
            let u = ((c as u32) - 32) as char;
            assert(u as u32 == (c as u32) - 32);
            assert(!('a' <= u && u <= 'z'));
        }
    }
    assert(up.map_values(|c: char| ascii_upper(c)) =~= up);
}

/// True if `instance` is an instance of the given USB VID/PID. Device
/// instance IDs look like `USB\VID_0416&PID_90A1\6&2a1b3c&0&1`.
pub fn is_our_instance(instance: &str, vid: u16, pid: u16) -> (b: bool)
    ensures
        b == spec_is_our_instance(instance@, vid, pid),
{
    let mut prefix: Vec<char> = Vec::new();
    push_str(&mut prefix, "USB\\VID_");
    push_hex4(&mut prefix, vid);
    push_str(&mut prefix, "&PID_");
    push_hex4(&mut prefix, pid);
    let ghost p = instance_prefix(vid, pid);
    assert(prefix@ =~= p);
    let cs = chars_of(instance);
    let ghost up = instance@.map_values(|c: char| ascii_upper(c));
    assert(up.len() == cs@.len());
    if cs.len() <= prefix.len() {
        return false;
    }
    let mut i: usize = 0;
    while i < prefix.len()
        invariant
            prefix@ == p,
            p == instance_prefix(vid, pid),
            cs@ == instance@,
            up == instance@.map_values(|c: char| ascii_upper(c)),
            prefix@.len() < cs@.len(),
            i <= prefix@.len(),
            forall|j: int| 0 <= j < i ==> up[j] == p[j],
        decreases prefix@.len() - i,
    {
        if to_ascii_upper(cs[i]) != prefix[i] {
            assert(up.take(p.len() as int)[i as int] != p[i as int]);
            return false;
        }
        i = i + 1;
    }
    assert(up.take(p.len() as int) =~= p);
    to_ascii_upper(cs[prefix.len()]) == '\\'
}

/// What `String::from_utf16_lossy` decodes a sequence of UTF-16 code units
/// to.
pub uninterp spec fn utf16_lossy(units: Seq<u16>) -> Seq<char>;

/// True when no code unit is a surrogate half (each unit is a whole
/// character).
pub open spec fn no_surrogates(units: Seq<u16>) -> bool {
    forall|i: int| 0 <= i < units.len() ==> #[trigger] units[i] < 0xD800 || units[i] > 0xDFFF
}

/// Decodes UTF-16 code units, replacing invalid data with U+FFFD
/// (`String::from_utf16_lossy`). Claimed: the result is a function of the
/// code units alone, named [`utf16_lossy`]; without surrogate halves every
/// unit decodes to the character with that code.
#[verifier::external_body]
fn decode_utf16_lossy(units: &[u16]) -> (s: String)
    ensures
        s@ == utf16_lossy(units@),
        no_surrogates(units@) ==> s@ == units@.map_values(|u: u16| u as char),
{
    String::from_utf16_lossy(units)
}

/// Index of the first zero unit of `b` at or after `i`, or `b.len()`.
pub open spec fn nul_pos(b: Seq<u16>, i: int) -> int
    decreases b.len() - i,
{
    if i < 0 || i >= b.len() {
        if i < 0 { 0 } else { b.len() as int }
    } else if b[i] == 0 {
        i
    } else {
        nul_pos(b, i + 1)
    }
}

pub proof fn lemma_nul_pos_bounds(b: Seq<u16>, i: int)
    requires
        0 <= i <= b.len(),
    ensures
        i <= nul_pos(b, i) <= b.len(),
    decreases b.len() - i,
{
    if i < b.len() && b[i] != 0 {
        lemma_nul_pos_bounds(b, i + 1);
    }
}

/// The first instance ID of the NUL-separated, double-NUL-terminated list
/// `b` (starting at `i`) that names USB `vid`/`pid`.
pub open spec fn first_matching_instance(b: Seq<u16>, i: int, vid: u16, pid: u16) -> Option<
    Seq<char>,
>
    decreases b.len() - i,
{
    if i < 0 || i >= b.len() {
        None
    } else {
        proof {
            lemma_nul_pos_bounds(b, i);
        }
        let e = nul_pos(b, i);
        let id = utf16_lossy(b.subrange(i, e));
        if id.len() == 0 {
            None
        } else if spec_is_our_instance(id, vid, pid) {
            Some(id)
        } else if e >= b.len() {
            None
        } else {
            first_matching_instance(b, e + 1, vid, pid)
        }
    }
}

/// `b[s..e]` is an entry of a NUL-separated list: it starts the buffer or
/// follows a NUL, holds no NUL, and ends at a NUL or at the buffer's end.
pub open spec fn list_entry(b: Seq<u16>, s: int, e: int) -> bool {
    &&& 0 <= s <= e <= b.len()
    &&& (s == 0 || b[s - 1] == 0)
    &&& forall|k: int| s <= k < e ==> #[trigger] b[k] != 0
    &&& (e == b.len() || b[e] == 0)
}

proof fn lemma_nul_pos_props(b: Seq<u16>, i: int)
    requires
        0 <= i <= b.len(),
    ensures
        i <= nul_pos(b, i) <= b.len(),
        forall|k: int| i <= k < nul_pos(b, i) ==> #[trigger] b[k] != 0,
        nul_pos(b, i) < b.len() ==> b[nul_pos(b, i)] == 0,
    decreases b.len() - i,
{
    if i < b.len() && b[i] != 0 {
        lemma_nul_pos_props(b, i + 1);
    }
}

proof fn lemma_nul_pos_is_entry_end(b: Seq<u16>, i: int, e: int)
    requires
        0 <= i <= e <= b.len(),
        forall|k: int| i <= k < e ==> #[trigger] b[k] != 0,
        e == b.len() || b[e] == 0,
    ensures
        nul_pos(b, i) == e,
    decreases e - i,
{
    if i < e {
        lemma_nul_pos_is_entry_end(b, i + 1, e);
    }
}

/// The scan from an entry start `i <= s` reaches the matching entry
/// `b[s..e]` when every entry before it decodes to a non-empty ID that
/// does not match.
proof fn lemma_scan_reaches(b: Seq<u16>, i: int, s: int, e: int, vid: u16, pid: u16)
    requires
        0 <= i <= s,
        i == 0 || b[i - 1] == 0,
        list_entry(b, s, e),
        s < b.len(),
        spec_is_our_instance(utf16_lossy(b.subrange(s, e)), vid, pid),
        forall|s2: int, e2: int|
            list_entry(b, s2, e2) && s2 < s ==> #[trigger] utf16_lossy(b.subrange(s2, e2)).len()
                > 0 && !spec_is_our_instance(utf16_lossy(b.subrange(s2, e2)), vid, pid),
    ensures
        first_matching_instance(b, i, vid, pid) == Some(utf16_lossy(b.subrange(s, e))),
    decreases s - i,
{
    if i == s {
        lemma_nul_pos_is_entry_end(b, s, e);
        let id = utf16_lossy(b.subrange(s, e));
        assert(id.map_values(|c: char| ascii_upper(c)).len() == id.len());
    } else {
        lemma_nul_pos_props(b, i);
        let e2 = nul_pos(b, i);
        assert(b[s - 1] == 0);
        assert(e2 <= s - 1) by {
            if e2 > s - 1 {
                assert(b[s - 1] != 0);
            }
        }
        assert(list_entry(b, i, e2));
        let id2 = utf16_lossy(b.subrange(i, e2));
        assert(id2.len() > 0 && !spec_is_our_instance(id2, vid, pid));
        lemma_scan_reaches(b, e2 + 1, s, e, vid, pid);
    }
}

/// The search finds the first matching entry: when the entry `b[s..e]`
/// decodes to an instance ID of `vid`/`pid` and every entry before it
/// (there may be none: `s == 0`) decodes to a non-empty ID that does not
/// match, the result is exactly that entry's ID.
pub proof fn lemma_first_matching_entry_is_found(b: Seq<u16>, s: int, e: int, vid: u16, pid: u16)
    requires
        list_entry(b, s, e),
        s < b.len(),
        spec_is_our_instance(utf16_lossy(b.subrange(s, e)), vid, pid),
        forall|s2: int, e2: int|
            list_entry(b, s2, e2) && s2 < s ==> #[trigger] utf16_lossy(b.subrange(s2, e2)).len()
                > 0 && !spec_is_our_instance(utf16_lossy(b.subrange(s2, e2)), vid, pid),
    ensures
        first_matching_instance(b, 0, vid, pid) == Some(utf16_lossy(b.subrange(s, e))),
{
    lemma_scan_reaches(b, 0, s, e, vid, pid);
}

/// The search only ever answers with an entry of the list that names
/// `vid`/`pid`, and only when every entry before it decodes to a
/// non-empty ID that does not name them (an empty entry ends the list).
pub proof fn lemma_found_instance_is_an_entry(b: Seq<u16>, i: int, vid: u16, pid: u16)
    requires
        0 <= i,
        i == 0 || (i <= b.len() && b[i - 1] == 0),
    ensures
        first_matching_instance(b, i, vid, pid) matches Some(x) ==> exists|s: int, e: int|
            #[trigger] list_entry(b, s, e) && s >= i && x == utf16_lossy(b.subrange(s, e))
                && spec_is_our_instance(x, vid, pid) && forall|s2: int, e2: int|
                list_entry(b, s2, e2) && i <= s2 < s ==> #[trigger] utf16_lossy(
                    b.subrange(s2, e2),
                ).len() > 0 && !spec_is_our_instance(utf16_lossy(b.subrange(s2, e2)), vid, pid),
    decreases b.len() - i,
{
    if 0 <= i < b.len() {
        lemma_nul_pos_props(b, i);
        let e = nul_pos(b, i);
        assert(list_entry(b, i, e));
        let id = utf16_lossy(b.subrange(i, e));
        if e < b.len() && id.len() > 0 && !spec_is_our_instance(id, vid, pid) {
            lemma_found_instance_is_an_entry(b, e + 1, vid, pid);
            if first_matching_instance(b, i, vid, pid) is Some {
                let x = first_matching_instance(b, i, vid, pid)->0;
                let (s, e1) = choose|s: int, e1: int|
                    #[trigger] list_entry(b, s, e1) && s >= e + 1 && x == utf16_lossy(
                        b.subrange(s, e1),
                    ) && spec_is_our_instance(x, vid, pid) && forall|s2: int, e2: int|
                        list_entry(b, s2, e2) && e + 1 <= s2 < s ==> #[trigger] utf16_lossy(
                            b.subrange(s2, e2),
                        ).len() > 0 && !spec_is_our_instance(
                            utf16_lossy(b.subrange(s2, e2)),
                            vid,
                            pid,
                        );
                assert forall|s2: int, e2: int|
                    list_entry(b, s2, e2) && i <= s2 < s implies #[trigger] utf16_lossy(
                        b.subrange(s2, e2),
                    ).len() > 0 && !spec_is_our_instance(
                        utf16_lossy(b.subrange(s2, e2)),
                        vid,
                        pid,
                    ) by {
                    if s2 <= e {
                        if s2 > i {
                            assert(b[s2 - 1] != 0);
                        }
                        lemma_nul_pos_is_entry_end(b, i, e2);
                    }
                }
                assert(list_entry(b, s, e1));
            }
        }
    }
}

/// Finds the first instance ID in a `CM_Get_Device_ID_List` buffer (instance
/// IDs separated by NUL, the list terminated by a double NUL) that names USB
/// `vid`/`pid`.
pub fn find_instance_in_list(buf: &[u16], vid: u16, pid: u16) -> (r: Option<String>)
    ensures
        match r {
            Some(s) => first_matching_instance(buf@, 0, vid, pid) == Some(s@),
            None => first_matching_instance(buf@, 0, vid, pid).is_none(),
        },
{
    let n = buf.len();
    let mut i: usize = 0;
    while i < n
        invariant
            n == buf@.len(),
            i <= n,
            first_matching_instance(buf@, 0, vid, pid) == first_matching_instance(
                buf@,
                i as int,
                vid,
                pid,
            ),
        decreases n - i,
    {
        let start = i;
        while i < n && buf[i] != 0
            invariant
                n == buf@.len(),
                start <= i <= n,
                nul_pos(buf@, start as int) == nul_pos(buf@, i as int),
            decreases n - i,
        {
            i = i + 1;
        }
        proof {
            lemma_nul_pos_bounds(buf@, start as int);
        }
        let id = decode_utf16_lossy(vstd::slice::slice_subrange(buf, start, i));
        if id.as_str().unicode_len() == 0 {
            return None;
        }
        if is_our_instance(id.as_str(), vid, pid) {
            return Some(id);
        }
        if i >= n {
            return None;
        }
        i = i + 1;
    }
    None
}

// ---------------------------------------------------------------------
// The USB re-enumeration ladder.
// ---------------------------------------------------------------------

/// `CR_CALL_NOT_IMPLEMENTED`: the code reported when a Configuration
/// Manager call other than the optional reset is unavailable.
pub const CR_CALL_NOT_IMPLEMENTED: u32 = 0x34;

/// Milliseconds to wait after removing the device subtree, and again after
/// rescanning its parent hub.
pub const REMOVE_RESCAN_SETTLE_MILLIS: u64 = 1500;

/// Why a device re-enumeration failed (`CONFIGRET` codes are `u32`).
#[derive(Debug, Clone, Copy, PartialEq, Eq, Structural)]
pub enum RestartFailure {
    /// The device is not present or could not be located.
    NotPresent,
    /// The function-level reset failed with this code; deliberately not
    /// followed by the other fallbacks.
    ResetFailed(u32),
    /// Re-enumerating the parent hub failed with this code.
    ReenumerateFailed(u32),
    /// Removing the device subtree failed with this code.
    RemoveFailed(u32),
    /// Locating the parent hub failed with this code.
    ParentLookupFailed(u32),
}

/// Which mechanism re-enumerated the device.
#[derive(Debug, Clone, Copy, PartialEq, Eq, Structural)]
pub enum RestartMethod {
    /// Function-level reset of the device (a USB port reset in place).
    Reset,
    /// Removal of the device subtree, then a rescan of its parent hub.
    RemoveRescan,
}

/// A Configuration Manager call of the ladder.
#[derive(Debug, Clone, Copy, PartialEq, Eq, Structural)]
pub enum RestartStage {
    /// Locate the device node of the instance ID.
    Locate,
    /// Function-level reset (`CM_Reset_Device`, an optional export).
    Reset,
    /// Remove the device subtree (unplug simulation).
    RemoveSubtree,
    /// Find the parent hub.
    FindParent,
    /// Re-enumerate the parent hub (replug simulation).
    RescanParent,
}

/// What a call of the ladder returned.
#[derive(Debug, Clone, Copy, PartialEq, Eq, Structural)]
pub enum StageResult {
    /// The call succeeded.
    Success,
    /// The call is not available on this system.
    Unavailable,
    /// The call failed with this code.
    Failed(u32),
}

/// The ladder's next move.
#[derive(Debug, Clone, Copy, PartialEq, Eq)]
pub enum RestartNext {
    /// Make this call.
    Call(RestartStage),
    /// Wait this many milliseconds, then make the call.
    WaitThenCall(u64, RestartStage),
    /// Wait this many milliseconds, then the ladder is done: the device was
    /// removed and its hub rescanned.
    WaitThenRescanned(u64),
    /// The ladder is done with this result.
    Done(Result<RestartMethod, RestartFailure>),
}

/// The failure code of a call that did not succeed.
pub open spec fn failure_code(r: StageResult) -> u32 {
    match r {
        StageResult::Failed(c) => c,
        _ => CR_CALL_NOT_IMPLEMENTED,
    }
}

/// One step of the re-enumeration ladder: locate the device, try the
/// function-level reset, and only when the reset call does not exist fall
/// back to removing the device subtree and rescanning its parent hub.
pub open spec fn spec_restart_step(stage: RestartStage, result: StageResult) -> RestartNext {
    match stage {
        RestartStage::Locate => if result == StageResult::Success {
            RestartNext::Call(RestartStage::Reset)
        } else {
            RestartNext::Done(Err(RestartFailure::NotPresent))
        },
        RestartStage::Reset => match result {
            StageResult::Success => RestartNext::Done(Ok(RestartMethod::Reset)),
            StageResult::Unavailable => RestartNext::Call(RestartStage::RemoveSubtree),
            StageResult::Failed(c) => RestartNext::Done(Err(RestartFailure::ResetFailed(c))),
        },
        RestartStage::RemoveSubtree => if result == StageResult::Success {
            RestartNext::WaitThenCall(REMOVE_RESCAN_SETTLE_MILLIS, RestartStage::FindParent)
        } else {
            RestartNext::Done(Err(RestartFailure::RemoveFailed(failure_code(result))))
        },
        RestartStage::FindParent => if result == StageResult::Success {
            RestartNext::Call(RestartStage::RescanParent)
        } else {
            RestartNext::Done(Err(RestartFailure::ParentLookupFailed(failure_code(result))))
        },
        RestartStage::RescanParent => if result == StageResult::Success {
            RestartNext::WaitThenRescanned(REMOVE_RESCAN_SETTLE_MILLIS)
        } else {
            RestartNext::Done(Err(RestartFailure::ReenumerateFailed(failure_code(result))))
        },
    }
}

/// Decides the next move of the re-enumeration ladder after `stage`
/// returned `result`.
pub fn restart_step(stage: RestartStage, result: StageResult) -> (next: RestartNext)
    ensures
        next == spec_restart_step(stage, result),
{
    let code = match result {
        StageResult::Failed(c) => c,
        _ => CR_CALL_NOT_IMPLEMENTED,
    };
    let ok = match result {
        StageResult::Success => true,
        _ => false,
    };
    match stage {
        RestartStage::Locate => if ok {
            RestartNext::Call(RestartStage::Reset)
        } else {
            RestartNext::Done(Err(RestartFailure::NotPresent))
        },
        RestartStage::Reset => match result {
            StageResult::Success => RestartNext::Done(Ok(RestartMethod::Reset)),
            StageResult::Unavailable => RestartNext::Call(RestartStage::RemoveSubtree),
            StageResult::Failed(c) => RestartNext::Done(Err(RestartFailure::ResetFailed(c))),
        },
        RestartStage::RemoveSubtree => if ok {
            RestartNext::WaitThenCall(REMOVE_RESCAN_SETTLE_MILLIS, RestartStage::FindParent)
        } else {
            RestartNext::Done(Err(RestartFailure::RemoveFailed(code)))
        },
        RestartStage::FindParent => if ok {
            RestartNext::Call(RestartStage::RescanParent)
        } else {
            RestartNext::Done(Err(RestartFailure::ParentLookupFailed(code)))
        },
        RestartStage::RescanParent => if ok {
            RestartNext::WaitThenRescanned(REMOVE_RESCAN_SETTLE_MILLIS)
        } else {
            RestartNext::Done(Err(RestartFailure::ReenumerateFailed(code)))
        },
    }
}

/// A failed reset is never followed by the remove-and-rescan fallback (a
/// device mid-reset must not be torn down further); the fallback runs only
/// when the reset call does not exist, and it ends in a rescan only after
/// the removal and the parent lookup succeeded.
pub proof fn lemma_restart_ladder(code: u32, result: StageResult)
    ensures
        spec_restart_step(RestartStage::Reset, StageResult::Failed(code)) == RestartNext::Done(
            Err::<RestartMethod, RestartFailure>(RestartFailure::ResetFailed(code)),
        ),
        spec_restart_step(RestartStage::Reset, result) == RestartNext::Call(
            RestartStage::RemoveSubtree,
        ) <==> result == StageResult::Unavailable,
        spec_restart_step(RestartStage::RemoveSubtree, result) is WaitThenCall <==> result
            == StageResult::Success,
        spec_restart_step(RestartStage::FindParent, result) is Call <==> result
            == StageResult::Success,
        spec_restart_step(RestartStage::RescanParent, result) is WaitThenRescanned <==> result
            == StageResult::Success,
        spec_restart_step(RestartStage::Locate, result) != RestartNext::Call(
            RestartStage::Reset,
        ) ==> spec_restart_step(RestartStage::Locate, result) == RestartNext::Done(
            Err::<RestartMethod, RestartFailure>(RestartFailure::NotPresent),
        ),
{
}

} // verus!
