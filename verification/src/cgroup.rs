//! The control group that tags the game's processes so that the filter
//! rules can match their traffic.
//!
//! The group is identified by a directory under the `net_cls` control-group
//! mount; its classifier id is written once into the group's classid file,
//! and a process is classified by writing its id into the group's process
//! list. [`CGroup`] models the membership list that those writes build up;
//! the surrounding program performs the actual file writes, one per id that
//! [`crate::classify::TrackedPids::scan_step`] hands it.

use vstd::prelude::*;

use crate::textutil::{spec_split, split_str};

verus! {

/// The classifier id written into the control group and matched by every
/// drop rule.
pub const NET_CLS_CLASSID: u32 = 0x1b854c;

/// Where the `net_cls` control-group filesystem is mounted if no existing
/// mount is found.
pub const NET_CLS_DIR: &'static str = "/sys/fs/cgroup/net_cls";

/// The name of the dedicated subgroup for the game's processes.
pub const GROUP_NAME: &'static str = "ow2serverpicker";

/// The control group's membership list: the process ids in the order their
/// classification writes were issued, one write per id.
pub struct CGroup {
    pub procs: Vec<i32>,
}

impl CGroup {
    /// A freshly created (or re-used, previously empty) group: no process
    /// has been classified yet in this run.
    pub fn new() -> (g: Self)
        ensures
            g.procs@ == Seq::<i32>::empty(),
    {
        CGroup { procs: Vec::new() }
    }

    /// Records the classification write for one process id.
    pub fn add(&mut self, pid: i32)
        ensures
            final(self).procs@ == old(self).procs@.push(pid),
    {
        self.procs.push(pid);
    }
}

/// One line of the mount table names a `net_cls` control-group mount when
/// its third space-separated field (the filesystem type) is `cgroup` and
/// its fourth field's comma-separated mount options include `net_cls`.
pub open spec fn spec_is_net_cls_line(line: Seq<char>) -> bool {
    let fields = spec_split(line, ' ');
    &&& fields.len() >= 4
    &&& fields[2] == "cgroup"@
    &&& spec_split(fields[3], ',').contains("net_cls"@)
}

/// The mount path (second field) of the first line naming a `net_cls`
/// mount.
pub open spec fn spec_first_net_cls(lines: Seq<Seq<char>>) -> Option<Seq<char>>
    decreases lines.len(),
{
    if lines.len() == 0 {
        None
    } else if spec_is_net_cls_line(lines[0]) {
        Some(spec_split(lines[0], ' ')[1])
    } else {
        spec_first_net_cls(lines.drop_first())
    }
}

/// What scanning the whole mount table yields.
pub open spec fn spec_net_cls_mount(mounts: Seq<char>) -> Option<Seq<char>> {
    spec_first_net_cls(spec_split(mounts, '\n'))
}

/// Whether the comma-separated mount options include `net_cls`.
fn options_have_net_cls(opts: &str) -> (r: bool)
    ensures
        r == spec_split(opts@, ',').contains("net_cls"@),
{
    let needle = "net_cls".to_owned();
    let parts = split_str(opts, ',');
    let mut j: usize = 0;
    while j < parts.len()
        invariant
            j <= parts@.len(),
            needle@ == "net_cls"@,
            parts.deep_view() == spec_split(opts@, ','),
            parts.deep_view().len() == parts@.len(),
            forall|t: int| 0 <= t < parts@.len() ==> #[trigger] parts.deep_view()[t] == parts@[t]@,
            forall|t: int| 0 <= t < j ==> parts.deep_view()[t] != "net_cls"@,
        decreases parts@.len() - j,
    {
        if parts[j] == needle {
            assert(parts.deep_view()[j as int] == "net_cls"@);
            return true;
        }
        j += 1;
    }
    false
}

/// Scans the mount table's text for an already-mounted `net_cls`
/// control-group filesystem and yields its mount path: the second field of
/// the first line whose filesystem type is `cgroup` and whose options name
/// `net_cls`.
pub fn find_net_cls_mount(mounts: &str) -> (r: Option<String>)
    ensures
        r.deep_view() == spec_net_cls_mount(mounts@),
{
    let fs_needle = "cgroup".to_owned();
    let lines = split_str(mounts, '\n');
    proof {
        assert(lines.deep_view().skip(0) =~= lines.deep_view());
    }
    let mut i: usize = 0;
    while i < lines.len()
        invariant
            i <= lines@.len(),
            fs_needle@ == "cgroup"@,
            lines.deep_view() == spec_split(mounts@, '\n'),
            lines.deep_view().len() == lines@.len(),
            forall|t: int| 0 <= t < lines@.len() ==> #[trigger] lines.deep_view()[t] == lines@[t]@,
            spec_net_cls_mount(mounts@) == spec_first_net_cls(
                lines.deep_view().skip(i as int),
            ),
        decreases lines@.len() - i,
    {
        let ghost rem = lines.deep_view().skip(i as int);
        proof {
            assert(rem[0] == lines.deep_view()[i as int]);
            assert(rem.drop_first() =~= lines.deep_view().skip(i + 1 as int));
        }
        let fields = split_str(lines[i].as_str(), ' ');
        proof {
            assert(fields.deep_view() == spec_split(lines@[i as int]@, ' '));
            assert(fields.deep_view().len() == fields@.len());
        }
        let mut matched = false;
        if fields.len() >= 4 {
            if fields[2] == fs_needle {
                if options_have_net_cls(fields[3].as_str()) {
                    matched = true;
                }
            }
        }
        if matched {
            proof {
                assert(spec_is_net_cls_line(rem[0]));
            }
            return Some(fields[1].clone());
        }
        proof {
            assert(!spec_is_net_cls_line(rem[0]));
        }
        i += 1;
    }
    proof {
        assert(lines.deep_view().skip(lines@.len() as int) =~= Seq::<Seq<char>>::empty());
    }
    None
}

/// Which directory the control group lives under, and whether a fresh
/// `net_cls` mount is needed there: an already-mounted `net_cls` filesystem
/// is re-used; otherwise the well-known directory is mounted first.
pub fn cgroup_root(found: Option<String>) -> (r: (String, bool))
    ensures
        r.1 == (found is None),
        match found {
            Some(p) => r.0 == p,
            None => r.0@ == NET_CLS_DIR@,
        },
{
    match found {
        Some(p) => (p, false),
        None => (NET_CLS_DIR.to_owned(), true),
    }
}

/// The directory of the dedicated subgroup under the control-group root.
pub fn group_dir(root: &str) -> (r: String)
    ensures
        r@ == root@ + seq!['/'] + GROUP_NAME@,
{
    proof {
        reveal_strlit("/");
    }
    let mut s = root.to_owned();
    s.append("/");
    s.append(GROUP_NAME);
    assert(s@ =~= root@ + seq!['/'] + GROUP_NAME@);
    s
}

/// The group's classid control file, which receives the classifier id.
pub fn classid_file(group: &str) -> (r: String)
    ensures
        r@ == group@ + seq!['/'] + "net_cls.classid"@,
{
    proof {
        reveal_strlit("/");
    }
    let mut s = group.to_owned();
    s.append("/");
    s.append("net_cls.classid");
    assert(s@ =~= group@ + seq!['/'] + "net_cls.classid"@);
    s
}

/// The group's process-list control file, which receives each classified id.
pub fn procs_file(group: &str) -> (r: String)
    ensures
        r@ == group@ + seq!['/'] + "cgroup.procs"@,
{
    proof {
        reveal_strlit("/");
    }
    let mut s = group.to_owned();
    s.append("/");
    s.append("cgroup.procs");
    assert(s@ =~= group@ + seq!['/'] + "cgroup.procs"@);
    s
}

} // verus!
