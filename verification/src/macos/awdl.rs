//! Lease on the peer-to-peer wireless interface, kept by a privileged helper.
use vstd::prelude::*;

use crate::identity::same_bytes;

verus! {

/// Milliseconds that the helper has for an activation or a restoration.
pub const RESPONSE_TIMEOUT_MS: u64 = 2_000;

/// Milliseconds between two heartbeats, and that the helper has for one.
pub const RENEW_INTERVAL_MS: u64 = 500;

/// What a file system says of the helper or of a directory above it.
#[derive(Clone, Copy, Debug, PartialEq, Eq, Structural)]
pub struct FileFacts {
    pub is_file: bool,
    pub is_directory: bool,
    pub owner: u32,
    pub mode: u32,
}

#[derive(Clone, Copy, Debug, PartialEq, Eq, Structural)]
pub enum HelperProblem {
    /// The helper is no root-owned setuid file without group or other write access.
    UnsafeHelper,
    /// The directory at this place above the helper can be changed by others.
    UnsafeDirectory(usize),
}

impl FileFacts {
    /// A plain file of root, with setuid, without setgid, and not writable by
    /// group or others.
    pub open spec fn is_safe_helper(self) -> bool {
        self.is_file && self.owner == 0 && self.mode & 0o6022 == 0o4000
    }

    /// A directory of root that neither group nor others can write.
    pub open spec fn is_safe_directory(self) -> bool {
        self.is_directory && self.owner == 0 && self.mode & 0o022 == 0
    }
}

/// Decides from the helper's file and the directories above it, nearest
/// first, whether the helper may be started.
pub fn validate_helper(file: FileFacts, directories: &Vec<FileFacts>) -> (result: Result<
    (),
    HelperProblem,
>)
    ensures
        match result {
            Ok(_) => file.is_safe_helper() && forall|i: int|
                0 <= i < directories@.len() ==> (#[trigger] directories@[i]).is_safe_directory(),
            Err(HelperProblem::UnsafeHelper) => !file.is_safe_helper(),
            Err(HelperProblem::UnsafeDirectory(at)) => file.is_safe_helper() && at
                < directories@.len() && !directories@[at as int].is_safe_directory() && forall|
                i: int,
            |
                0 <= i < at ==> (#[trigger] directories@[i]).is_safe_directory(),
        },
{
    if !file.is_file || file.owner != 0 || file.mode & 0o6022 != 0o4000 {
        return Err(HelperProblem::UnsafeHelper);
    }
    let mut at: usize = 0;
    while at < directories.len()
        invariant
            at <= directories@.len(),
            file.is_safe_helper(),
            forall|i: int| 0 <= i < at ==> (#[trigger] directories@[i]).is_safe_directory(),
        decreases directories@.len() - at,
    {
        let directory = directories[at];
        if !directory.is_directory || directory.owner != 0 || directory.mode & 0o022 != 0 {
            return Err(HelperProblem::UnsafeDirectory(at));
        }
        at = at + 1;
    }
    Ok(())
}

/// Where the exchange with the helper stands.
#[derive(Clone, Copy, Debug, PartialEq, Eq, Structural)]
pub enum LeasePhase {
    /// The helper has been started and has not reported.
    Starting,
    Activating,
    Held,
    Renewing,
    Releasing,
    /// The helper confirmed the restoration and has not exited.
    Restored,
    Ended,
}

#[derive(Clone, Copy, Debug, PartialEq, Eq, Structural)]
pub enum LeaseError {
    /// The helper answered something else than what was asked.
    UnexpectedResponse,
    /// Nothing was asked that the helper could answer, or the lease is not
    /// in a phase for this request.
    OutOfTurn,
    /// The helper could not restore the interface.
    NotRestored,
}

/// A lease whose helper lives.
#[derive(Clone, Copy, Debug, PartialEq, Eq, Structural)]
pub struct AwDlLease {
    pub phase: LeasePhase,
}

/// Next thing to do after an answer.
#[derive(Clone, Copy, Debug, PartialEq, Eq, Structural)]
pub enum LeaseStep {
    /// Send this command and await the answer.
    Send(u8),
    /// The request is complete.
    Done,
    /// Wait for the helper to exit.
    AwaitExit,
}

/// The answer that a phase waits for.
pub open spec fn awaited(phase: LeasePhase) -> Option<Seq<u8>> {
    match phase {
        // "READY\n"
        LeasePhase::Starting => Some(seq![82u8, 69, 65, 68, 89, 10]),
        // "ACTIVE\n"
        LeasePhase::Activating => Some(seq![65u8, 67, 84, 73, 86, 69, 10]),
        // "HELD\n"
        LeasePhase::Renewing => Some(seq![72u8, 69, 76, 68, 10]),
        // "RELEASED\n"
        LeasePhase::Releasing => Some(seq![82u8, 69, 76, 69, 65, 83, 69, 68, 10]),
        _ => None,
    }
}

pub open spec fn after_answer(phase: LeasePhase) -> (LeasePhase, LeaseStep) {
    match phase {
        LeasePhase::Starting => (LeasePhase::Activating, LeaseStep::Send(65)),
        LeasePhase::Activating => (LeasePhase::Held, LeaseStep::Done),
        LeasePhase::Renewing => (LeasePhase::Held, LeaseStep::Done),
        _ => (LeasePhase::Restored, LeaseStep::AwaitExit),
    }
}

impl AwDlLease {
    pub fn start() -> (result: Self)
        ensures
            result.phase == LeasePhase::Starting,
    {
        AwDlLease { phase: LeasePhase::Starting }
    }

    /// The answer to read next, if one is due.
    pub fn expected(&self) -> (result: Option<Vec<u8>>)
        ensures
            match result {
                Some(bytes) => awaited(self.phase) == Some(bytes@),
                None => awaited(self.phase) is None,
            },
    {
        let bytes: Vec<u8> = match self.phase {
            LeasePhase::Starting => vec![82, 69, 65, 68, 89, 10],
            LeasePhase::Activating => vec![65, 67, 84, 73, 86, 69, 10],
            LeasePhase::Renewing => vec![72, 69, 76, 68, 10],
            LeasePhase::Releasing => vec![82, 69, 76, 69, 65, 83, 69, 68, 10],
            _ => return None,
        };
        assert(bytes@ =~= awaited(self.phase)->0);
        Some(bytes)
    }

    /// Handles what the helper answered.
    pub fn answered(&mut self, received: &Vec<u8>) -> (result: Result<LeaseStep, LeaseError>)
        ensures
            match awaited(old(self).phase) {
                None => result == Err::<LeaseStep, LeaseError>(LeaseError::OutOfTurn)
                    && *final(self) == *old(self),
                Some(bytes) => if received@ == bytes {
                    &&& result == Ok::<LeaseStep, LeaseError>(after_answer(old(self).phase).1)
                    &&& final(self).phase == after_answer(old(self).phase).0
                } else {
                    &&& result == Err::<LeaseStep, LeaseError>(LeaseError::UnexpectedResponse)
                    &&& *final(self) == *old(self)
                },
            },
    {
        let expected = match self.expected() {
            Some(expected) => expected,
            None => return Err(LeaseError::OutOfTurn),
        };
        if !same_bytes(received, &expected) {
            return Err(LeaseError::UnexpectedResponse);
        }
        match self.phase {
            LeasePhase::Starting => {
                self.phase = LeasePhase::Activating;
                Ok(LeaseStep::Send(65))
            },
            LeasePhase::Activating => {
                self.phase = LeasePhase::Held;
                Ok(LeaseStep::Done)
            },
            LeasePhase::Renewing => {
                self.phase = LeasePhase::Held;
                Ok(LeaseStep::Done)
            },
            _ => {
                self.phase = LeasePhase::Restored;
                Ok(LeaseStep::AwaitExit)
            },
        }
    }

    /// Asks the helper to hold the interface for longer, also while an earlier
    /// heartbeat is open.
    pub fn renew(&mut self) -> (result: Result<LeaseStep, LeaseError>)
        ensures
            if old(self).phase == LeasePhase::Held || old(self).phase == LeasePhase::Renewing {
                &&& result == Ok::<LeaseStep, LeaseError>(LeaseStep::Send(72))
                &&& final(self).phase == LeasePhase::Renewing
            } else {
                &&& result == Err::<LeaseStep, LeaseError>(LeaseError::OutOfTurn)
                &&& *final(self) == *old(self)
            },
    {
        if self.phase != LeasePhase::Held && self.phase != LeasePhase::Renewing {
            return Err(LeaseError::OutOfTurn);
        }
        self.phase = LeasePhase::Renewing;
        Ok(LeaseStep::Send(72))
    }

    /// Asks the helper to restore the interface. A heartbeat may be open.
    pub fn release(&mut self) -> (result: Result<LeaseStep, LeaseError>)
        ensures
            if old(self).phase == LeasePhase::Held || old(self).phase == LeasePhase::Renewing {
                &&& result == Ok::<LeaseStep, LeaseError>(LeaseStep::Send(82))
                &&& final(self).phase == LeasePhase::Releasing
            } else {
                &&& result == Err::<LeaseStep, LeaseError>(LeaseError::OutOfTurn)
                &&& *final(self) == *old(self)
            },
    {
        if self.phase != LeasePhase::Held && self.phase != LeasePhase::Renewing {
            return Err(LeaseError::OutOfTurn);
        }
        self.phase = LeasePhase::Releasing;
        Ok(LeaseStep::Send(82))
    }

    /// The helper exited after a release. Only a confirmed restoration and a
    /// successful exit end the lease well.
    pub fn exited(&mut self, success: bool) -> (result: Result<(), LeaseError>)
        ensures
            final(self).phase == LeasePhase::Ended,
            result == if old(self).phase == LeasePhase::Restored && success {
                Ok::<(), LeaseError>(())
            } else {
                Err(LeaseError::NotRestored)
            },
    {
        let restored = self.phase == LeasePhase::Restored;
        self.phase = LeasePhase::Ended;
        if restored && success {
            Ok(())
        } else {
            Err(LeaseError::NotRestored)
        }
    }
}

/// A bit of a file's mode, by its octal weight.
pub open spec fn has_mode_bit(mode: u32, weight: u32) -> bool {
    (mode / weight) % 2 == 1
}

/// A helper is safe exactly if it is root's file, runs as its owner but not as its
/// group, and only its owner may write it; a directory, if it is root's and only its
/// owner may write it.
pub proof fn only_root_writes_the_helper(facts: FileFacts)
    ensures
        facts.is_safe_helper() <==> facts.is_file && facts.owner == 0 && has_mode_bit(
            facts.mode,
            0o4000,
        ) && !has_mode_bit(facts.mode, 0o2000) && !has_mode_bit(facts.mode, 0o020) && !has_mode_bit(
            facts.mode,
            0o002,
        ),
        facts.is_safe_directory() <==> facts.is_directory && facts.owner == 0 && !has_mode_bit(
            facts.mode,
            0o020,
        ) && !has_mode_bit(facts.mode, 0o002),
{
    let mode = facts.mode;
    assert((mode & 0o6022 == 0o4000) <==> (mode / 0o4000) % 2 == 1 && (mode / 0o2000) % 2 != 1 && (
    mode / 0o020) % 2 != 1 && (mode / 0o002) % 2 != 1) by (bit_vector);
    assert((mode & 0o022 == 0) <==> (mode / 0o020) % 2 != 1 && (mode / 0o002) % 2 != 1)
        by (bit_vector);
}

/// Bytes that are a text's characters, all of them ASCII.
pub open spec fn spells(bytes: Seq<u8>, text: Seq<char>) -> bool {
    bytes.len() == text.len() && forall|i: int|
        0 <= i < bytes.len() ==> (#[trigger] bytes[i]) as u32 == text[i] as u32 && bytes[i] < 128
}

/// The helper's answer spells what it has done, as one line; it answers only in the
/// phases that wait for it.
pub proof fn answers_spell_what_was_done(phase: LeasePhase)
    ensures
        awaited(phase) matches Some(line) ==> match phase {
            LeasePhase::Starting => spells(line, "READY\n"@),
            LeasePhase::Activating => spells(line, "ACTIVE\n"@),
            LeasePhase::Renewing => spells(line, "HELD\n"@),
            _ => spells(line, "RELEASED\n"@),
        },
        awaited(phase) is None <==> phase is Held || phase is Restored || phase is Ended,
{
    reveal_strlit("READY\n");
    reveal_strlit("ACTIVE\n");
    reveal_strlit("HELD\n");
    reveal_strlit("RELEASED\n");
}

/// A lease is held after the helper was asked to activate it, and given back only
/// after it was asked to release it. The request to activate is the letter A.
pub proof fn leases_go_through_their_phases(phase: LeasePhase)
    requires
        awaited(phase) is Some,
    ensures
        after_answer(phase).0 is Held <==> phase is Activating || phase is Renewing,
        after_answer(phase).0 is Restored <==> phase is Releasing,
        after_answer(phase).0 is Activating <==> phase is Starting,
        after_answer(phase).1 is AwaitExit <==> phase is Releasing,
        after_answer(phase).1 is Done <==> phase is Activating || phase is Renewing,
        after_answer(phase).1 matches LeaseStep::Send(letter) ==> letter as u32 == 'A' as u32
            && phase is Starting,
{
}

} // verus!
