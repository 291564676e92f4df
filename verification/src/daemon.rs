//! The daemon's lifecycle decisions: the control-channel protocol that
//! stops a running daemon, the privilege-elevation invocation, and the
//! selection of the blocks a daemon run is asked to install.

use vstd::prelude::*;

use crate::net::NetworkBlock;
use crate::nft::{spec_teardown, FilterState};
use crate::prefixes::Region;
use crate::regions::RegionEntry;

verus! {

/// The well-known abstract name the control socket is bound to.
pub const SOCKET_NAME: &'static str = "ow2dropshiprs";

/// The command line of one invocation: run as the privileged daemon, stop a
/// running daemon, the game executable's path, and the keys of the region
/// groups to block.
#[derive(Clone, Debug)]
pub struct Cli {
    pub daemon: bool,
    pub kill: bool,
    pub game_path: String,
    pub prefixes: Vec<String>,
}

/// Why a stop request failed.
#[derive(Debug)]
pub enum KillError {
    /// Reaching the daemon failed with the carried message.
    IoError(String),
    /// The connection was refused: no daemon is listening, so there is
    /// nothing to stop.
    Refused,
}

impl KillError {
    /// The display text of the failure.
    pub fn message(&self) -> (r: String)
        ensures
            r@ == (match *self {
                KillError::IoError(m) => "failed to communicate with the process: "@ + m@,
                KillError::Refused => "connection was refused, the daemon is likely not running"@,
            }),
    {
        match self {
            KillError::IoError(m) => {
                let mut s = "failed to communicate with the process: ".to_owned();
                s.append(m.as_str());
                s
            },
            KillError::Refused => "connection was refused, the daemon is likely not running".to_owned(),
        }
    }
}

/// What the surrounding program observed when it connected to the control
/// socket and wrote the kill word.
#[derive(Debug)]
pub enum ConnectOutcome {
    /// Connected and the word was written.
    Sent,
    /// The connection was refused: no listener.
    Refused,
    /// Any other I/O failure, with its message.
    Failed(String),
}

/// The result a stop request reports for each possible outcome.
pub open spec fn spec_kill_result(attempt: ConnectOutcome) -> Result<(), KillError> {
    match attempt {
        ConnectOutcome::Sent => Ok(()),
        ConnectOutcome::Refused => Err(KillError::Refused),
        ConnectOutcome::Failed(m) => Err(KillError::IoError(m)),
    }
}

/// Classifies a stop request's outcome: a delivered kill word is success, a
/// refused connection is the distinguishable "daemon not running" case, and
/// any other failure is surfaced as an I/O error with its message.
pub fn kill(attempt: ConnectOutcome) -> (r: Result<(), KillError>)
    ensures
        r == spec_kill_result(attempt),
        r is Ok <==> attempt is Sent,
        r matches Err(KillError::Refused) <==> attempt is Refused,
{
    match attempt {
        ConnectOutcome::Sent => Ok(()),
        ConnectOutcome::Refused => Err(KillError::Refused),
        ConnectOutcome::Failed(m) => Err(KillError::IoError(m)),
    }
}

/// The raw bytes of the control word that stops the daemon.
pub open spec fn spec_kill_bytes() -> Seq<u8> {
    seq!['k' as u8, 'i' as u8, 'l' as u8, 'l' as u8]
}

/// The kill word as sent over the control channel.
pub fn kill_command() -> (r: Vec<u8>)
    ensures
        r@ == spec_kill_bytes(),
{
    let mut v: Vec<u8> = Vec::new();
    v.push('k' as u8);
    v.push('i' as u8);
    v.push('l' as u8);
    v.push('l' as u8);
    proof {
        assert(v@ =~= spec_kill_bytes());
    }
    v
}

/// Whether received control-channel bytes are exactly the kill word.
pub fn is_kill_command(buf: &[u8]) -> (r: bool)
    ensures
        r == (buf@ == spec_kill_bytes()),
{
    if buf.len() != 4 {
        return false;
    }
    if buf[0] == 'k' as u8 && buf[1] == 'i' as u8 && buf[2] == 'l' as u8 && buf[3] == 'l' as u8 {
        proof {
            assert(buf@ =~= spec_kill_bytes());
        }
        true
    } else {
        proof {
            if buf@ == spec_kill_bytes() {
                assert(buf@[0] == 'k' as u8);
                assert(buf@[1] == 'i' as u8);
                assert(buf@[2] == 'l' as u8);
                assert(buf@[3] == 'l' as u8);
            }
        }
        false
    }
}

/// The daemon's handling of one accepted control connection: exactly on the
/// kill word, the filter state is removed in the same step and the daemon
/// reports that it should exit; any other request leaves the state alone.
pub fn handle_control(state: &mut FilterState, buf: &[u8]) -> (shutdown: bool)
    ensures
        shutdown == (buf@ == spec_kill_bytes()),
        shutdown ==> final(state)@ == spec_teardown(old(state)@),
        !shutdown ==> *final(state) == *old(state),
{
    if is_kill_command(buf) {
        state.teardown();
        true
    } else {
        false
    }
}

/// The argument list of the privileged re-exec: the elevation helper, the
/// current executable run with the daemon flag, the game path, and the keys
/// of the region groups to block.
pub fn elevation_args(current_exe: &str, game_path: &str, keys: &Vec<String>) -> (r: Vec<String>)
    ensures
        r@.len() == 5 + keys@.len(),
        r@[0]@ == "pkexec"@,
        r@[1]@ == current_exe@,
        r@[2]@ == "--daemon"@,
        r@[3]@ == "--game-path"@,
        r@[4]@ == game_path@,
        forall|i: int| 0 <= i < keys@.len() ==> r@[5 + i]@ == (#[trigger] keys@[i])@,
{
    let mut v: Vec<String> = Vec::new();
    v.push("pkexec".to_owned());
    v.push(current_exe.to_owned());
    v.push("--daemon".to_owned());
    v.push("--game-path".to_owned());
    v.push(game_path.to_owned());
    let mut i: usize = 0;
    while i < keys.len()
        invariant
            i <= keys@.len(),
            v@.len() == 5 + i,
            v@[0]@ == "pkexec"@,
            v@[1]@ == current_exe@,
            v@[2]@ == "--daemon"@,
            v@[3]@ == "--game-path"@,
            v@[4]@ == game_path@,
            forall|j: int| 0 <= j < i ==> v@[5 + j]@ == (#[trigger] keys@[j])@,
        decreases keys@.len() - i,
    {
        v.push(keys[i].clone());
        i += 1;
    }
    v
}

/// What a stop request reports, given whether it was asked to be silent:
/// a refused connection during a silent stop means no daemon was running,
/// which is not an error; every other failure is kept.
pub open spec fn spec_stop_result(silent: bool, r: Result<(), KillError>) -> Result<(), KillError> {
    match r {
        Err(KillError::Refused) => if silent {
            Ok(())
        } else {
            Err(KillError::Refused)
        },
        _ => r,
    }
}

/// Applies the silent-stop rule to a kill outcome.
pub fn stop_result(silent: bool, r: Result<(), KillError>) -> (out: Result<(), KillError>)
    ensures
        out == spec_stop_result(silent, r),
{
    match r {
        Err(KillError::Refused) => if silent {
            Ok(())
        } else {
            Err(KillError::Refused)
        },
        _ => r,
    }
}

/// Whether any region row is currently selected.
pub fn any_selected(entries: &Vec<RegionEntry>) -> (r: bool)
    ensures
        r == exists|i: int| 0 <= i < entries@.len() && (#[trigger] entries@[i]).selected,
{
    let mut i: usize = 0;
    while i < entries.len()
        invariant
            i <= entries@.len(),
            forall|t: int| 0 <= t < i ==> !(#[trigger] entries@[t]).selected,
        decreases entries@.len() - i,
    {
        if entries[i].selected {
            return true;
        }
        i += 1;
    }
    false
}

/// The keys of the rows not selected, in order: the groups a daemon start
/// asks to block, so that matchmaking is forced into the selected regions.
pub open spec fn spec_blocked_keys(entries: Seq<RegionEntry>) -> Seq<Seq<char>>
    decreases entries.len(),
{
    if entries.len() == 0 {
        Seq::empty()
    } else {
        spec_blocked_keys(entries.drop_last()) + (if !entries.last().selected {
            seq![entries.last().region.key@]
        } else {
            Seq::empty()
        })
    }
}

/// Collects the keys of the unselected rows.
pub fn blocked_keys(entries: &Vec<RegionEntry>) -> (r: Vec<String>)
    ensures
        r.deep_view() == spec_blocked_keys(entries@),
{
    let mut out: Vec<String> = Vec::new();
    let mut i: usize = 0;
    proof {
        assert(out.deep_view() =~= spec_blocked_keys(entries@.take(0)));
    }
    while i < entries.len()
        invariant
            i <= entries@.len(),
            out.deep_view() == spec_blocked_keys(entries@.take(i as int)),
        decreases entries@.len() - i,
    {
        let ghost pre = out.deep_view();
        if !entries[i].selected {
            out.push(entries[i].region.key.clone());
            proof {
                assert(out.deep_view() =~~= pre.push(entries@[i as int].region.key@));
                assert(pre + seq![entries@[i as int].region.key@] =~= pre.push(
                    entries@[i as int].region.key@,
                ));
            }
        } else {
            proof {
                assert(pre + Seq::<Seq<char>>::empty() =~= pre);
            }
        }
        proof {
            let post = entries@.take(i + 1 as int);
            assert(post.drop_last() =~= entries@.take(i as int));
            assert(post.last() == entries@[i as int]);
        }
        i += 1;
    }
    proof {
        assert(entries@.take(entries@.len() as int) =~= entries@);
    }
    out
}

/// The blocks of the regions whose key is among `keys`, in region order.
pub open spec fn spec_selected_blocks(regions: Seq<Region>, keys: Seq<Seq<char>>) -> Seq<
    NetworkBlock,
>
    decreases regions.len(),
{
    if regions.len() == 0 {
        Seq::empty()
    } else {
        spec_selected_blocks(regions.drop_last(), keys) + (if keys.contains(
            regions.last().key@,
        ) {
            regions.last().prefixes@
        } else {
            Seq::empty()
        })
    }
}

/// Whether `key` occurs among the group keys.
fn contains_key(keys: &Vec<String>, key: &String) -> (r: bool)
    ensures
        r == keys.deep_view().contains(key@),
{
    let mut j: usize = 0;
    while j < keys.len()
        invariant
            j <= keys@.len(),
            keys.deep_view().len() == keys@.len(),
            forall|t: int|
                0 <= t < keys@.len() ==> #[trigger] keys.deep_view()[t] == keys@[t]@,
            forall|t: int| 0 <= t < j ==> keys.deep_view()[t] != key@,
        decreases keys@.len() - j,
    {
        if keys[j] == *key {
            assert(keys.deep_view()[j as int] == key@);
            return true;
        }
        j += 1;
    }
    false
}

/// Resolves the requested group keys against the region table: the blocks
/// of every region whose key was requested, in the table's order.
pub fn select_blocks(regions: &Vec<Region>, keys: &Vec<String>) -> (r: Vec<NetworkBlock>)
    requires
        forall|i: int| 0 <= i < regions@.len() ==> (#[trigger] regions@[i]).is_wf(),
    ensures
        r@ == spec_selected_blocks(regions@, keys.deep_view()),
        forall|i: int| 0 <= i < r@.len() ==> (#[trigger] r@[i]).is_wf(),
{
    let mut out: Vec<NetworkBlock> = Vec::new();
    let mut i: usize = 0;
    while i < regions.len()
        invariant
            i <= regions@.len(),
            forall|t: int| 0 <= t < regions@.len() ==> (#[trigger] regions@[t]).is_wf(),
            out@ == spec_selected_blocks(regions@.take(i as int), keys.deep_view()),
            forall|t: int| 0 <= t < out@.len() ==> (#[trigger] out@[t]).is_wf(),
        decreases regions@.len() - i,
    {
        let region = &regions[i];
        let ghost pre = out@;
        if contains_key(keys, &region.key) {
            let mut j: usize = 0;
            while j < region.prefixes.len()
                invariant
                    j <= region.prefixes@.len(),
                    region == regions@[i as int],
                    i < regions@.len(),
                    forall|t: int| 0 <= t < regions@.len() ==> (#[trigger] regions@[t]).is_wf(),
                    out@ == pre + region.prefixes@.take(j as int),
                    forall|t: int| 0 <= t < out@.len() ==> (#[trigger] out@[t]).is_wf(),
                decreases region.prefixes@.len() - j,
            {
                out.push(region.prefixes[j]);
                proof {
                    assert(pre + region.prefixes@.take(j + 1 as int) =~= (pre
                        + region.prefixes@.take(j as int)).push(region.prefixes@[j as int]));
                }
                j += 1;
            }
            proof {
                assert(region.prefixes@.take(region.prefixes@.len() as int)
                    =~= region.prefixes@);
            }
        } else {
            proof {
                assert(out@ =~= pre + Seq::<NetworkBlock>::empty());
            }
        }
        proof {
            let taken = regions@.take(i + 1 as int);
            assert(taken.drop_last() =~= regions@.take(i as int));
            assert(taken.last() == regions@[i as int]);
        }
        i += 1;
    }
    proof {
        assert(regions@.take(regions@.len() as int) =~= regions@);
    }
    out
}

} // verus!
