use vstd::prelude::*;
use vstd::string::StringExecFns;

use super::activity::{activity_members, Activity};
use crate::protocol::json::serialize::{lemma_member_concat, lemma_member_single, member, push_member, Serialize};
use crate::protocol::json::value::{fields_view, RefView, ValueRef};

verus! {

/// A command for Discord: set the activity of a process.
pub struct Packet<'a> {
    pub cmd: &'a str,
    pub args: PacketArgs<'a>,
}

/// The process whose activity is set, and the activity; none clears it.
pub struct PacketArgs<'a> {
    pub pid: u32,
    pub activity: Option<&'a Activity>,
}

impl<'a> Packet<'a> {
    /// Sets `activity` as the activity of the process `pid`.
    pub fn new(pid: u32, activity: Option<&'a Activity>) -> (r: Packet<'a>)
        ensures
            r.cmd@ == "SET_ACTIVITY"@,
            r.args.pid == pid,
            r.args.activity == activity,
    {
        Packet { cmd: "SET_ACTIVITY", args: PacketArgs { pid, activity } }
    }

    /// Clears the activity, for no process in particular.
    pub fn empty() -> (r: Packet<'a>)
        ensures
            r.cmd@ == "SET_ACTIVITY"@,
            r.args.pid == 0,
            r.args.activity is None,
    {
        Packet { cmd: "SET_ACTIVITY", args: PacketArgs { pid: 0, activity: None } }
    }
}

/// The JSON members of a command's arguments: the process id, then the
/// activity when there is one.
pub open spec fn args_members(pid: u32, activity: Option<&Activity>) -> Seq<(Seq<char>, RefView)> {
    seq![("pid"@, RefView::Number(pid as u64))] + match activity {
        Some(a) => seq![("activity"@, RefView::Object(activity_members(a@)))],
        None => Seq::empty(),
    }
}

impl<'a> Serialize for PacketArgs<'a> {
    open spec fn spec_fields(&self) -> Seq<(Seq<char>, RefView)> {
        args_members(self.pid, self.activity)
    }

    fn serialize_fields(&self) -> (r: Vec<(String, ValueRef)>) {
        let mut r: Vec<(String, ValueRef)> = Vec::new();
        push_member(&mut r, "pid", ValueRef::Number(self.pid as u64));
        match self.activity {
            Some(a) => push_member(&mut r, "activity", ValueRef::Object(a.serialize_fields())),
            None => {},
        }
        assert(fields_view(r@) =~= self.spec_fields());
        r
    }
}

impl<'a> Serialize for Packet<'a> {
    open spec fn spec_fields(&self) -> Seq<(Seq<char>, RefView)> {
        seq![
            ("cmd"@, RefView::String(self.cmd@)),
            ("args"@, RefView::Object(args_members(self.args.pid, self.args.activity))),
            ("nonce"@, RefView::String("-"@)),
        ]
    }

    fn serialize_fields(&self) -> (r: Vec<(String, ValueRef)>) {
        let mut r: Vec<(String, ValueRef)> = Vec::new();
        push_member(&mut r, "cmd", ValueRef::String(String::from_str(self.cmd)));
        push_member(&mut r, "args", ValueRef::Object(self.args.serialize_fields()));
        push_member(&mut r, "nonce", ValueRef::String(String::from_str("-")));
        assert(fields_view(r@) =~= self.spec_fields());
        r
    }
}

/// A written command holds its name under `cmd`, its arguments under `args`
/// and `-` under `nonce`; its arguments hold the process id under `pid`,
/// and the activity, written as an object, under `activity` exactly when
/// there is one.
pub proof fn lemma_packet_written_by_key(p: Packet)
    ensures
        member(p.spec_fields(), "cmd"@) == Some(RefView::String(p.cmd@)),
        member(p.spec_fields(), "args"@) == Some(RefView::Object(p.args.spec_fields())),
        member(p.spec_fields(), "nonce"@) == Some(RefView::String("-"@)),
        member(p.args.spec_fields(), "pid"@) == Some(RefView::Number(p.args.pid as u64)),
        member(p.args.spec_fields(), "activity"@) == match p.args.activity {
            Some(a) => Some(RefView::Object(a.spec_fields())),
            None => None,
        },
{
    reveal_strlit("cmd");
    reveal_strlit("args");
    reveal_strlit("nonce");
    reveal_strlit("pid");
    reveal_strlit("activity");
    assert("cmd"@.len() == 3 && "args"@.len() == 4 && "nonce"@.len() == 5);
    assert("pid"@.len() == 3 && "activity"@.len() == 8);
    let c = ("cmd"@, RefView::String(p.cmd@));
    let g = ("args"@, RefView::Object(p.args.spec_fields()));
    let n = ("nonce"@, RefView::String("-"@));
    assert(p.spec_fields() =~= seq![c] + seq![g] + seq![n]);
    lemma_member_concat(seq![c] + seq![g], seq![n], "cmd"@);
    lemma_member_concat(seq![c] + seq![g], seq![n], "args"@);
    lemma_member_concat(seq![c] + seq![g], seq![n], "nonce"@);
    lemma_member_concat(seq![c], seq![g], "cmd"@);
    lemma_member_concat(seq![c], seq![g], "args"@);
    lemma_member_concat(seq![c], seq![g], "nonce"@);
    lemma_member_single(c.0, c.1, "cmd"@);
    lemma_member_single(c.0, c.1, "args"@);
    lemma_member_single(c.0, c.1, "nonce"@);
    lemma_member_single(g.0, g.1, "args"@);
    lemma_member_single(g.0, g.1, "nonce"@);
    lemma_member_single(n.0, n.1, "nonce"@);
    let pid = ("pid"@, RefView::Number(p.args.pid as u64));
    let rest: Seq<(Seq<char>, RefView)> = match p.args.activity {
        Some(a) => seq![("activity"@, RefView::Object(activity_members(a@)))],
        None => Seq::empty(),
    };
    lemma_member_concat(seq![pid], rest, "pid"@);
    lemma_member_concat(seq![pid], rest, "activity"@);
    lemma_member_single(pid.0, pid.1, "pid"@);
    lemma_member_single(pid.0, pid.1, "activity"@);
    match p.args.activity {
        Some(a) => {
            lemma_member_single("activity"@, RefView::Object(activity_members(a@)), "activity"@);
        },
        None => {},
    }
}

} // verus!
