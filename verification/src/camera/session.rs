//! The datalink's own bookkeeping: the three counters every command advances, the ids a
//! fresh connect starts from, and the subscription names the core hands over.
//!
//! The DUML frame sequence advances by one per command, the transport sequence by
//! eight, and the command counter by one, as the phone drivers do it.

use vstd::prelude::*;
use vstd::arithmetic::div_mod::lemma_add_mod_noop;

use crate::text::{fields, split_fields, string_views};

verus! {

/// What one command's datagram is stamped with.
#[derive(Debug, Clone, Copy, PartialEq, Eq, Structural)]
pub struct CommandStamp {
    /// The DUML frame sequence the frame is encoded with.
    pub duml_seq: u16,
    /// The command counter the routing header carries.
    pub counter: u8,
    /// The transport sequence of the routing and transport headers.
    pub udp_seq: u16,
}

/// The datalink's counters.
#[derive(Debug, Clone, Copy, PartialEq, Eq, Structural)]
pub struct SequenceCounters {
    /// The transport sequence a session starts from.
    pub base_seq: u16,
    /// The DUML frame sequence. One per command.
    pub duml_seq: u16,
    /// The transport sequence. Eight per command.
    pub udp_seq: u16,
    pub command_counter: u8,
}

/// The counters of a session that has sent nothing yet.
pub open spec fn opened(base_seq: u16) -> SequenceCounters {
    SequenceCounters { base_seq, duml_seq: 0, udp_seq: base_seq, command_counter: 0 }
}

/// The counters after one more command.
pub open spec fn advanced(c: SequenceCounters) -> SequenceCounters {
    SequenceCounters {
        base_seq: c.base_seq,
        duml_seq: ((c.duml_seq + 1) % 0x1_0000) as u16,
        udp_seq: ((c.udp_seq + 8) % 0x1_0000) as u16,
        command_counter: ((c.command_counter + 1) % 0x100) as u8,
    }
}

/// The counters after `n` more commands.
pub open spec fn advanced_by(c: SequenceCounters, n: nat) -> SequenceCounters
    decreases n,
{
    if n == 0 {
        c
    } else {
        advanced(advanced_by(c, (n - 1) as nat))
    }
}

/// After `n` commands on a fresh session the frame sequence is `n`, the transport
/// sequence `base + 8n` and the command counter `n`, each wrapping at its width.
pub proof fn lemma_counters_after(base_seq: u16, n: nat)
    ensures
        advanced_by(opened(base_seq), n).base_seq == base_seq,
        advanced_by(opened(base_seq), n).duml_seq == n % 0x1_0000,
        advanced_by(opened(base_seq), n).udp_seq == (base_seq + 8 * n) % 0x1_0000,
        advanced_by(opened(base_seq), n).command_counter == n % 0x100,
    decreases n,
{
    if n > 0 {
        let m = (n - 1) as nat;
        lemma_counters_after(base_seq, m);
        lemma_add_mod_noop(m as int, 1, 0x1_0000);
        lemma_add_mod_noop(m as int, 1, 0x100);
        lemma_add_mod_noop(base_seq + 8 * m, 8, 0x1_0000);
        assert(1int % 0x1_0000 == 1);
        assert(1int % 0x100 == 1);
        assert(8int % 0x1_0000 == 8);
    }
}

impl SequenceCounters {
    /// A session that has sent nothing yet.
    pub fn new(base_seq: u16) -> (counters: Self)
        ensures
            counters == opened(base_seq),
    {
        SequenceCounters { base_seq, duml_seq: 0, udp_seq: base_seq, command_counter: 0 }
    }

    /// Stamps the next command and advances all three counters. The frame carries the
    /// sequence before the step, the routing header the counter after it.
    pub fn next_command(&mut self) -> (stamp: CommandStamp)
        ensures
            *final(self) == advanced(*old(self)),
            stamp.duml_seq == old(self).duml_seq,
            stamp.counter == final(self).command_counter,
            stamp.udp_seq == old(self).udp_seq,
    {
        let duml_seq = self.duml_seq;
        let udp_seq = self.udp_seq;
        self.duml_seq = self.duml_seq.wrapping_add(1);
        self.command_counter = self.command_counter.wrapping_add(1);
        self.udp_seq = self.udp_seq.wrapping_add(8);
        proof {
            assert(self.duml_seq == (duml_seq + 1) % 0x1_0000);
        }
        CommandStamp { duml_seq, counter: self.command_counter, udp_seq }
    }

    /// Back to the session's start, as when the datalink is reopened.
    pub fn reset(&mut self)
        ensures
            *final(self) == opened(old(self).base_seq),
    {
        self.duml_seq = 0;
        self.udp_seq = self.base_seq;
        self.command_counter = 0;
    }
}

/// The session id a connect uses: the low 16 bits of the clock's nanoseconds, made odd.
pub open spec fn spec_session_id(nanos: u32) -> u16 {
    ((nanos & 0xFFFF) as u16) | 1
}

/// The base sequence a connect uses: bits 8 to 23 of the nanoseconds, 8-aligned.
pub open spec fn spec_base_seq(nanos: u32) -> u16 {
    ((nanos >> 8u32) & 0xFFF8) as u16
}

/// A session id and an 8-aligned base sequence from the clock's sub-second nanoseconds.
/// A fixed base can wedge the camera, so the caller passes a fresh reading per connect.
pub fn fresh_session(nanos: u32) -> (ids: (u16, u16))
    ensures
        ids.0 == spec_session_id(nanos),
        ids.1 == spec_base_seq(nanos),
        ids.0 % 2 == 1,
        ids.1 % 8 == 0,
{
    let session_id: u16 = ((nanos & 0xFFFF) as u16) | 1;
    let base_seq: u16 = ((nanos >> 8u32) & 0xFFF8) as u16;
    assert(session_id % 2 == 1) by (bit_vector)
        requires
            session_id == ((nanos & 0xFFFF) as u16) | 1,
    ;
    assert(base_seq % 8 == 0) by (bit_vector)
        requires
            base_seq == ((nanos >> 8u32) & 0xFFF8) as u16,
    ;
    (session_id, base_seq)
}

/// The non-empty lines of a list the core hands over.
pub open spec fn named_lines(text: Seq<char>) -> Seq<Seq<char>> {
    fields(text).filter(|line: Seq<char>| line.len() > 0)
}

/// The subscription names in the core's newline-separated list, empty lines dropped.
pub fn subscribe_keys_from(text: &str) -> (keys: Vec<String>)
    ensures
        string_views(keys@) == named_lines(text@),
{
    let lines = split_fields(text);
    let ghost all = string_views(lines@);
    let ghost named = |line: Seq<char>| line.len() > 0;
    let mut keys: Vec<String> = Vec::new();
    let mut i: usize = 0;
    while i < lines.len()
        invariant
            all == string_views(lines@),
            i <= lines@.len(),
            named == (|line: Seq<char>| line.len() > 0),
            string_views(keys@) == all.subrange(0, i as int).filter(named),
        decreases lines@.len() - i,
    {
        let line = &lines[i];
        proof {
            reveal(Seq::filter);
            assert(line@ == all[i as int]);
            assert(all.subrange(0, i + 1).drop_last() =~= all.subrange(0, i as int));
            assert(all.subrange(0, i + 1).last() == line@);
        }
        if !line.as_str().is_empty() {
            let ghost before = string_views(keys@);
            keys.push(line.clone());
            proof {
                assert(string_views(keys@) =~= before.push(line@));
            }
        }
        i = i + 1;
    }
    proof {
        assert(all.subrange(0, i as int) =~= all);
    }
    keys
}

} // verus!
