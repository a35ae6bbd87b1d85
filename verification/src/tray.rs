//! The tray status line that summarises the health of the child processes.
use vstd::prelude::*;

use crate::text::{push_str, string_from_chars};

verus! {

/// The health of one child process, as the tray shows it.
#[derive(Clone, Copy, Debug)]
pub struct ChildStatus {
    pub name: &'static str,
    pub healthy: bool,
}

/// Names of the unhealthy children, in order.
pub open spec fn down_names(s: Seq<ChildStatus>) -> Seq<Seq<char>>
    decreases s.len(),
{
    if s.len() == 0 {
        Seq::empty()
    } else if s.last().healthy {
        down_names(s.drop_last())
    } else {
        down_names(s.drop_last()).push(s.last().name@)
    }
}

/// `names` joined with `", "`.
pub open spec fn join_names(names: Seq<Seq<char>>) -> Seq<char>
    decreases names.len(),
{
    if names.len() == 0 {
        Seq::empty()
    } else if names.len() == 1 {
        names[0]
    } else {
        join_names(names.drop_last()) + ", "@ + names.last()
    }
}

/// The status line: "all running", or "degraded" with the list of the
/// children currently reporting unhealthy.
pub open spec fn spec_status_label(s: Seq<ChildStatus>) -> Seq<char> {
    if down_names(s).len() == 0 {
        "Aster Launcher: all running"@
    } else {
        "Aster Launcher: degraded ("@ + join_names(down_names(s)) + ")"@
    }
}

/// Builds the tray status line summarising child health.
pub fn status_label(children: &[ChildStatus]) -> (label: String)
    ensures
        label@ == spec_status_label(children@),
{
    let n = children.len();
    let mut body: Vec<char> = Vec::new();
    let mut any = false;
    let mut i: usize = 0;
    while i < n
        invariant
            n == children@.len(),
            i <= n,
            body@ == join_names(down_names(children@.take(i as int))),
            any == (down_names(children@.take(i as int)).len() > 0),
        decreases n - i,
    {
        let c = children[i];
        let ghost pre = children@.take(i as int);
        assert(children@.take(i + 1).drop_last() =~= pre);
        assert(children@.take(i + 1).last() == c);
        if !c.healthy {
            if any {
                push_str(&mut body, ", ");
            }
            push_str(&mut body, c.name);
            proof {
                let d = down_names(children@.take(i + 1));
                assert(d == down_names(pre).push(c.name@));
                assert(d.drop_last() =~= down_names(pre));
                if !any {
                    assert(down_names(pre) =~= Seq::<Seq<char>>::empty());
                    assert(body@ =~= d[0]);
                } else {
                    assert(body@ =~= join_names(d.drop_last()) + ", "@ + d.last());
                }
            }
            any = true;
        }
        i = i + 1;
    }
    assert(children@.take(n as int) =~= children@);
    let mut out: Vec<char> = Vec::new();
    if any {
        push_str(&mut out, "Aster Launcher: degraded (");
        let mut j: usize = 0;
        while j < body.len()
            invariant
                j <= body@.len(),
                out@ == "Aster Launcher: degraded ("@ + body@.take(j as int),
            decreases body@.len() - j,
        {
            out.push(body[j]);
            j = j + 1;
            assert(out@ =~= "Aster Launcher: degraded ("@ + body@.take(j as int));
        }
        assert(body@.take(j as int) =~= body@);
        push_str(&mut out, ")");
    } else {
        push_str(&mut out, "Aster Launcher: all running");
        assert(out@ =~= "Aster Launcher: all running"@);
    }
    string_from_chars(out.as_slice())
}

} // verus!
