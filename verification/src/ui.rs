//! The computations behind the summary table: ordering the sessions
//! (active first, oldest login first within each group) and sizing each
//! column to its widest cell, with a floor for the heading.
use vstd::multiset::Multiset;
use vstd::prelude::*;
use vstd::utf8::encode_utf8;

use crate::{sessions_view, Session, SessionV};

verus! {

/// The display order: active sessions before inactive ones, and older
/// logins first among sessions of the same liveness.
pub open spec fn spec_session_le(a: SessionV, b: SessionV) -> bool {
    (a.active && !b.active) || (a.active == b.active && a.login_time <= b.login_time)
}

/// Whether a run of sessions is in display order.
pub open spec fn spec_sorted(v: Seq<SessionV>) -> bool {
    forall|i: int, j: int| 0 <= i < j < v.len() ==> spec_session_le(v[i], v[j])
}

/// Compares two sessions in display order.
fn session_le(a: &Session, b: &Session) -> (r: bool)
    ensures
        r == spec_session_le(a@, b@),
{
    (a.active && !b.active) || (a.active == b.active && a.login_time <= b.login_time)
}

/// The display order is total: two sessions always compare one way or
/// the other.
proof fn lemma_le_total(a: SessionV, b: SessionV)
    ensures
        spec_session_le(a, b) || spec_session_le(b, a),
{
}

/// The display order is transitive.
proof fn lemma_le_trans(a: SessionV, b: SessionV, c: SessionV)
    ensures
        spec_session_le(a, b) && spec_session_le(b, c) ==> spec_session_le(a, c),
{
}

/// Inserting into a sorted sequence at the first position whose element
/// is not below the new one keeps it sorted.
proof fn lemma_sorted_insert(vb: Seq<SessionV>, k: int, x: SessionV)
    requires
        0 <= k <= vb.len(),
        spec_sorted(vb),
        forall|m: int| 0 <= m < k ==> spec_session_le(#[trigger] vb[m], x),
        k < vb.len() ==> spec_session_le(x, vb[k]),
    ensures
        spec_sorted(vb.insert(k, x)),
{
    vb.insert_ensures(k, x);
    let v = vb.insert(k, x);
    assert forall|i: int, j: int| 0 <= i < j < v.len() implies spec_session_le(v[i], v[j]) by {
        if i < k {
            assert(v[i] == vb[i]);
        }
        if i > k {
            assert(v[(i - 1) + 1] == vb[i - 1]);
        }
        if j < k {
            assert(v[j] == vb[j]);
        }
        if j > k {
            assert(v[(j - 1) + 1] == vb[j - 1]);
        }
        if j < k {
            assert(spec_session_le(vb[i], vb[j]));
        } else if j == k {
            assert(spec_session_le(vb[i], x));
        } else {
            if i < k {
                assert(spec_session_le(vb[i], vb[j - 1]));
            } else if i == k {
                assert(spec_session_le(x, vb[k]));
                if j - 1 == k {
                } else {
                    assert(spec_session_le(vb[k], vb[j - 1]));
                    lemma_le_trans(x, vb[k], vb[j - 1]);
                }
            } else {
                if i - 1 < j - 1 {
                    assert(spec_session_le(vb[i - 1], vb[j - 1]));
                }
            }
        }
    }
}

/// Sorts sessions into display order. The result holds exactly the given
/// sessions — same multiset — in an order where every active session
/// precedes every inactive one and login times ascend within each group.
pub fn sort_sessions(sessions: Vec<Session>) -> (r: Vec<Session>)
    ensures
        spec_sorted(sessions_view(r@)),
        r@.to_multiset() == sessions@.to_multiset(),
{
    broadcast use vstd::multiset::group_multiset_axioms;

    let mut input: Vec<Session> = sessions;
    let mut out: Vec<Session> = Vec::new();
    proof {
        out@.to_multiset_ensures();
        vstd::multiset::lemma_multiset_empty_len(out@.to_multiset());
        assert(out@.to_multiset() =~= Multiset::<Session>::empty());
        assert(Multiset::<Session>::empty().add(input@.to_multiset()) =~= input@.to_multiset());
        assert(out@.to_multiset().add(input@.to_multiset()) == sessions@.to_multiset());
    }
    while input.len() > 0
        invariant
            spec_sorted(sessions_view(out@)),
            out@.to_multiset().add(input@.to_multiset()) == sessions@.to_multiset(),
        decreases input.len(),
    {
        let ghost input_before = input@;
        let x: Session = match input.pop() {
            Some(v) => v,
            None => {
                return out;
            },
        };
        proof {
            assert(input_before =~= input@.push(x));
            vstd::seq_lib::to_multiset_build(input@, x);
            assert(input_before.to_multiset() == input@.to_multiset().insert(x));
        }
        let mut k: usize = 0;
        while k < out.len() && session_le(&out[k], &x)
            invariant
                k <= out@.len(),
                forall|m: int| 0 <= m < k ==> spec_session_le(sessions_view(out@)[m], x@),
            decreases out@.len() - k,
        {
            k = k + 1;
        }
        let ghost out_before = out@;
        proof {
            if k < out_before.len() {
                assert(spec_session_le(x@, out_before[k as int]@)) by {
                    lemma_le_total(out_before[k as int]@, x@);
                }
            }
        }
        out.insert(k, x);
        proof {
            vstd::seq_lib::to_multiset_insert(out_before, k as int, x);
            assert(out@.to_multiset().add(input@.to_multiset()) =~= out_before.to_multiset().add(
                input_before.to_multiset(),
            ));
            let vb = sessions_view(out_before);
            out_before.insert_ensures(k as int, x);
            vb.insert_ensures(k as int, x@);
            assert forall|idx: int|
                0 <= idx < out@.len() implies sessions_view(out@)[idx] == vb.insert(
                k as int,
                x@,
            )[idx] by {
                if idx < k {
                    assert(out@[idx] == out_before[idx]);
                    assert(vb.insert(k as int, x@)[idx] == vb[idx]);
                } else if idx == k {
                } else {
                    assert(out@[(idx - 1) + 1] == out_before[idx - 1]);
                    assert(vb.insert(k as int, x@)[(idx - 1) + 1] == vb[idx - 1]);
                }
            }
            assert(sessions_view(out@) =~= vb.insert(k as int, x@));
            lemma_sorted_insert(vb, k as int, x@);
        }
    }
    proof {
        input@.to_multiset_ensures();
        vstd::multiset::lemma_multiset_empty_len(input@.to_multiset());
        assert(input@.to_multiset() =~= Multiset::<Session>::empty());
        assert(out@.to_multiset().add(Multiset::<Session>::empty()) =~= out@.to_multiset());
        assert(out@.to_multiset() == sessions@.to_multiset());
    }
    out
}

/// The byte width of a session's host label, 0 when it has none.
pub open spec fn spec_host_len(s: SessionV) -> int {
    match s.host {
        Some(h) => encode_utf8(h).len() as int,
        None => 0,
    }
}

/// The byte width of a session's remote peer, 0 when it has none.
pub open spec fn spec_remote_len(s: SessionV) -> int {
    match s.remote {
        Some(r) => encode_utf8(r).len() as int,
        None => 0,
    }
}

/// The byte width of a session's user name.
pub open spec fn spec_user_len(s: SessionV) -> int {
    encode_utf8(s.user).len() as int
}

/// The byte width of a session's tty name.
pub open spec fn spec_tty_len(s: SessionV) -> int {
    encode_utf8(s.tty).len() as int
}

/// The width of the host column: the widest host label, but no less
/// than `floor`.
pub fn host_column_width(sessions: &Vec<Session>, floor: usize) -> (r: usize)
    ensures
        r >= floor,
        forall|i: int| 0 <= i < sessions@.len() ==> spec_host_len(sessions@[i]@) <= r,
        r == floor || exists|i: int|
            0 <= i < sessions@.len() && spec_host_len(sessions@[i]@) == r,
{
    let mut r: usize = floor;
    let mut i: usize = 0;
    while i < sessions.len()
        invariant
            i <= sessions@.len(),
            r >= floor,
            forall|m: int| 0 <= m < i ==> spec_host_len(sessions@[m]@) <= r,
            r == floor || exists|m: int| 0 <= m < i && spec_host_len(sessions@[m]@) == r,
        decreases sessions@.len() - i,
    {
        let w: usize = match &sessions[i].host {
            Some(h) => h.as_str().as_bytes().len(),
            None => 0,
        };
        if w > r {
            r = w;
        }
        i = i + 1;
    }
    r
}

/// The width of the source column: the widest remote peer, but no less
/// than `floor`.
pub fn remote_column_width(sessions: &Vec<Session>, floor: usize) -> (r: usize)
    ensures
        r >= floor,
        forall|i: int| 0 <= i < sessions@.len() ==> spec_remote_len(sessions@[i]@) <= r,
        r == floor || exists|i: int|
            0 <= i < sessions@.len() && spec_remote_len(sessions@[i]@) == r,
{
    let mut r: usize = floor;
    let mut i: usize = 0;
    while i < sessions.len()
        invariant
            i <= sessions@.len(),
            r >= floor,
            forall|m: int| 0 <= m < i ==> spec_remote_len(sessions@[m]@) <= r,
            r == floor || exists|m: int| 0 <= m < i && spec_remote_len(sessions@[m]@) == r,
        decreases sessions@.len() - i,
    {
        let w: usize = match &sessions[i].remote {
            Some(h) => h.as_str().as_bytes().len(),
            None => 0,
        };
        if w > r {
            r = w;
        }
        i = i + 1;
    }
    r
}

/// The width of the user column: the widest user name, but no less than
/// `floor`.
pub fn user_column_width(sessions: &Vec<Session>, floor: usize) -> (r: usize)
    ensures
        r >= floor,
        forall|i: int| 0 <= i < sessions@.len() ==> spec_user_len(sessions@[i]@) <= r,
        r == floor || exists|i: int|
            0 <= i < sessions@.len() && spec_user_len(sessions@[i]@) == r,
{
    let mut r: usize = floor;
    let mut i: usize = 0;
    while i < sessions.len()
        invariant
            i <= sessions@.len(),
            r >= floor,
            forall|m: int| 0 <= m < i ==> spec_user_len(sessions@[m]@) <= r,
            r == floor || exists|m: int| 0 <= m < i && spec_user_len(sessions@[m]@) == r,
        decreases sessions@.len() - i,
    {
        let w: usize = sessions[i].user.as_str().as_bytes().len();
        if w > r {
            r = w;
        }
        i = i + 1;
    }
    r
}

/// The width of the tty column: the widest tty name, but no less than
/// `floor`.
pub fn tty_column_width(sessions: &Vec<Session>, floor: usize) -> (r: usize)
    ensures
        r >= floor,
        forall|i: int| 0 <= i < sessions@.len() ==> spec_tty_len(sessions@[i]@) <= r,
        r == floor || exists|i: int|
            0 <= i < sessions@.len() && spec_tty_len(sessions@[i]@) == r,
{
    let mut r: usize = floor;
    let mut i: usize = 0;
    while i < sessions.len()
        invariant
            i <= sessions@.len(),
            r >= floor,
            forall|m: int| 0 <= m < i ==> spec_tty_len(sessions@[m]@) <= r,
            r == floor || exists|m: int| 0 <= m < i && spec_tty_len(sessions@[m]@) == r,
        decreases sessions@.len() - i,
    {
        let w: usize = sessions[i].tty.as_str().as_bytes().len();
        if w > r {
            r = w;
        }
        i = i + 1;
    }
    r
}

/// The number of decimal digits of a non-negative number; 0 has one.
pub open spec fn spec_decimal_digits(n: int) -> int
    decreases n,
{
    if n < 10 {
        1
    } else {
        1 + spec_decimal_digits(n / 10)
    }
}

/// The printed width of a process id: its digits, plus one for a minus
/// sign.
pub open spec fn spec_pid_width(pid: i32) -> int {
    (if pid >= 0 {
        spec_decimal_digits(pid as int)
    } else {
        spec_decimal_digits(-(pid as int))
    }) + (if pid < 0 {
        1int
    } else {
        0int
    })
}

/// The printed width of a process id.
pub fn pid_width(pid: i32) -> (r: u32)
    ensures
        r == spec_pid_width(pid),
{
    let wide: i64 = pid as i64;
    let m: i64 = if wide >= 0 {
        wide
    } else {
        -wide
    };
    let d: u32 = if m >= 1000000000 {
        10
    } else if m >= 100000000 {
        9
    } else if m >= 10000000 {
        8
    } else if m >= 1000000 {
        7
    } else if m >= 100000 {
        6
    } else if m >= 10000 {
        5
    } else if m >= 1000 {
        4
    } else if m >= 100 {
        3
    } else if m >= 10 {
        2
    } else {
        1
    };
    proof {
        reveal_with_fuel(spec_decimal_digits, 12);
        assert(spec_decimal_digits(m as int) == d);
    }
    if pid < 0 {
        d + 1
    } else {
        d
    }
}

/// The width of the pid column: the widest printed pid, but no less than
/// `floor`.
pub fn pid_column_width(sessions: &Vec<Session>, floor: u32) -> (r: u32)
    ensures
        r >= floor,
        forall|i: int| 0 <= i < sessions@.len() ==> spec_pid_width(sessions@[i]@.pid) <= r,
        r == floor || exists|i: int|
            0 <= i < sessions@.len() && spec_pid_width(sessions@[i]@.pid) == r,
{
    let mut r: u32 = floor;
    let mut i: usize = 0;
    while i < sessions.len()
        invariant
            i <= sessions@.len(),
            r >= floor,
            forall|m: int| 0 <= m < i ==> spec_pid_width(sessions@[m]@.pid) <= r,
            r == floor || exists|m: int| 0 <= m < i && spec_pid_width(sessions@[m]@.pid) == r,
        decreases sessions@.len() - i,
    {
        let w: u32 = pid_width(sessions[i].pid);
        if w > r {
            r = w;
        }
        i = i + 1;
    }
    r
}

/// Whether a session's row appears in the summary: inactive sessions
/// show only when asked for.
pub fn include_row(include_inactive: bool, active: bool) -> (r: bool)
    ensures
        r == (include_inactive || active),
{
    include_inactive || active
}

} // verus!
