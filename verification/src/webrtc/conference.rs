//! The participant roster of a multi-peer conference: who is in it, and what
//! joining, leaving and closing answer.
//!
//! The peer connections themselves (creation, data channels, RTP tracks) are
//! outside; this roster holds the participants' IDs and makes the decisions.

use vstd::prelude::*;
use vstd::string::StringExecFns;

verus! {

broadcast use vstd::string::to_string_from_display_ensures_for_str;

/// The texts of a list of strings.
pub open spec fn ids_of(v: Seq<String>) -> Seq<Seq<char>> {
    v.map_values(|s: String| s@)
}

/// `"Participant <p> <verb> conference <c>"`.
pub open spec fn participant_text(p: Seq<char>, verb: Seq<char>, c: Seq<char>) -> Seq<char> {
    "Participant "@ + p + verb + " conference "@ + c
}

/// `"Participant <p><verb> conference <c>"` as a string.
fn participant_message(p: &str, verb: &str, c: &str) -> (s: String)
    ensures
        s@ == participant_text(p@, verb@, c@),
{
    let mut s = "Participant ".to_string();
    s.append(p);
    s.append(verb);
    s.append(" conference ");
    s.append(c);
    s
}

/// The test of being another ID than `id`.
pub open spec fn other_than(id: Seq<char>) -> spec_fn(Seq<char>) -> bool {
    |x: Seq<char>| x != id
}

/// The IDs of `v` other than `id`, in order.
pub open spec fn without(v: Seq<Seq<char>>, id: Seq<char>) -> Seq<Seq<char>> {
    v.filter(other_than(id))
}

#[verifier::external_type_specification]
#[verifier::external_body]
pub struct ExSystemTime(std::time::SystemTime);

/// Conference state for synchronization
#[derive(Debug)]
pub struct ConferenceState {
    /// The conference's ID.
    pub conference_id: String,
    /// The participants' IDs.
    pub participants: Vec<String>,
    /// Whether the conference's stream runs.
    pub is_streaming: bool,
    /// When the conference was created.
    pub created_at: std::time::SystemTime,
}

/// Participants of a conference.
pub struct ConferenceRoster {
    conference_id: String,
    participants: Vec<String>,
}

impl ConferenceRoster {
    /// The conference's ID.
    pub closed spec fn id(&self) -> Seq<char> {
        self.conference_id@
    }

    /// The participants' IDs, in the order they joined.
    pub closed spec fn members(&self) -> Seq<Seq<char>> {
        ids_of(self.participants@)
    }

    /// No participant is listed twice.
    pub closed spec fn wf(&self) -> bool {
        self.members().no_duplicates()
    }

    /// Create a new conference with no participant.
    pub fn new(conference_id: String) -> (r: Self)
        ensures
            r.wf(),
            r.id() == conference_id@,
            r.members() == Seq::<Seq<char>>::empty(),
    {
        let r = ConferenceRoster { conference_id, participants: Vec::new() };
        assert(r.members() =~= Seq::<Seq<char>>::empty());
        r
    }

    /// Get conference ID
    pub fn id_str(&self) -> (s: &str)
        ensures
            s@ == self.id(),
    {
        self.conference_id.as_str()
    }

    /// Position of `pid` among the participants.
    fn position(&self, pid: &str) -> (r: Option<usize>)
        ensures
            r is None ==> !self.members().contains(pid@),
            r matches Some(i) ==> i < self.members().len() && self.members()[i as int] == pid@,
    {
        let key = pid.to_string();
        let mut i: usize = 0;
        while i < self.participants.len()
            invariant
                i <= self.participants@.len(),
                key@ == pid@,
                forall|k: int| 0 <= k < i ==> (#[trigger] self.participants@[k])@ != pid@,
            decreases self.participants@.len() - i,
        {
            if self.participants[i] == key {
                assert(self.members()[i as int] == pid@);
                return Some(i);
            }
            i += 1;
        }
        assert forall|k: int| 0 <= k < self.members().len() implies #[trigger] self.members()[k]
            != pid@ by {
            assert(self.members()[k] == self.participants@[k]@);
        }
        None
    }

    /// Whether `pid` is a participant.
    pub fn contains(&self, pid: &str) -> (b: bool)
        ensures
            b == self.members().contains(pid@),
    {
        self.position(pid).is_some()
    }

    /// Get participant count
    pub fn participant_count(&self) -> (n: usize)
        ensures
            n == self.members().len(),
    {
        self.participants.len()
    }

    /// Get list of participant IDs
    pub fn get_participants(&self) -> (v: Vec<String>)
        ensures
            ids_of(v@) == self.members(),
    {
        let mut v: Vec<String> = Vec::new();
        let mut i: usize = 0;
        while i < self.participants.len()
            invariant
                i <= self.participants@.len(),
                v@.len() == i,
                ids_of(v@) == ids_of(self.participants@).take(i as int),
            decreases self.participants@.len() - i,
        {
            let ghost before = v@;
            v.push(self.participants[i].clone());
            assert(v@[i as int]@ == self.participants@[i as int]@);
            assert forall|k: int| 0 <= k < i implies #[trigger] v@[k]@ == ids_of(
                self.participants@,
            )[k] by {
                assert(v@[k] == before[k]);
                assert(ids_of(before)[k] == ids_of(self.participants@).take(i as int)[k]);
            }
            assert(ids_of(v@) =~= ids_of(self.participants@).take(i + 1));
            i += 1;
        }
        assert(ids_of(self.participants@).take(self.participants@.len() as int) =~= self.members());
        v
    }

    /// The first step of joining: refuse a participant who is already in the
    /// conference. The caller then creates the participant's peer connection.
    pub fn check_join(&self, pid: &str) -> (r: Result<(), String>)
        ensures
            r is Ok <==> !self.members().contains(pid@),
            r matches Err(m) ==> m@ == participant_text(pid@, " already in"@, self.id()),
    {
        if self.contains(pid) {
            return Err(participant_message(pid, " already in", self.conference_id.as_str()));
        }
        Ok(())
    }

    /// The last step of joining: add the participant, whose peer connection
    /// exists, and answer the joining message.
    pub fn add_participant(&mut self, pid: String) -> (msg: String)
        requires
            old(self).wf(),
            !old(self).members().contains(pid@),
        ensures
            final(self).wf(),
            final(self).id() == old(self).id(),
            final(self).members() == old(self).members().push(pid@),
            msg@ == participant_text(pid@, " joined"@, old(self).id()),
    {
        let msg = participant_message(pid.as_str(), " joined", self.conference_id.as_str());
        let ghost before = self.members();
        let ghost p = pid@;
        self.participants.push(pid);
        assert(self.members() =~= before.push(p));
        msg
    }

    /// Remove a participant from the conference: on success the caller closes
    /// its peer connection and the answer is the leaving message; a
    /// participant who is not in the conference is refused.
    pub fn remove_participant(&mut self, pid: &str) -> (r: Result<String, String>)
        requires
            old(self).wf(),
        ensures
            final(self).wf(),
            final(self).id() == old(self).id(),
            r is Ok <==> old(self).members().contains(pid@),
            final(self).members() == without(old(self).members(), pid@),
            r matches Ok(m) ==> m@ == participant_text(pid@, " left"@, old(self).id()),
            r matches Err(m) ==> m@ == participant_text(pid@, " not found in"@, old(self).id()),
    {
        let ghost before = self.members();
        match self.position(pid) {
            Some(i) => {
                self.participants.remove(i);
                proof {
                    lemma_remove_is_without(before, i as int, pid@);
                    assert(self.members() =~= before.remove(i as int));
                    lemma_no_duplicates_remove(before, i as int);
                }
                Ok(participant_message(pid, " left", self.conference_id.as_str()))
            },
            None => {
                proof {
                    lemma_without_absent(before, pid@);
                }
                Err(participant_message(pid, " not found in", self.conference_id.as_str()))
            },
        }
    }

    /// The participants other than `target`, in order: what the target is
    /// told of the conference when it joins.
    pub fn others(&self, target: &str) -> (v: Vec<String>)
        ensures
            ids_of(v@) == without(self.members(), target@),
    {
        let mut v: Vec<String> = Vec::new();
        let mut i: usize = 0;
        let key = target.to_string();
        while i < self.participants.len()
            invariant
                i <= self.participants@.len(),
                key@ == target@,
                ids_of(v@) == without(ids_of(self.participants@).take(i as int), target@),
            decreases self.participants@.len() - i,
        {
            let ghost m = ids_of(self.participants@);
            assert(m.take(i + 1) =~= m.take(i as int).push(m[i as int]));
            if self.participants[i] != key {
                v.push(self.participants[i].clone());
            }
            proof {
                m.take(i as int).lemma_filter_push(m[i as int], other_than(target@));
                assert(ids_of(v@) =~= without(m.take(i + 1), target@));
            }
            i += 1;
        }
        assert(ids_of(self.participants@).take(self.participants@.len() as int) =~= self.members());
        v
    }

    /// Get conference state for synchronization, given whether the stream
    /// runs and when the conference was created.
    pub fn get_state(&self, is_streaming: bool, created_at: std::time::SystemTime) -> (st:
        ConferenceState)
        ensures
            st.conference_id@ == self.id(),
            ids_of(st.participants@) == self.members(),
            st.is_streaming == is_streaming,
            st.created_at == created_at,
    {
        ConferenceState {
            conference_id: self.conference_id.clone(),
            participants: self.get_participants(),
            is_streaming,
            created_at,
        }
    }

    /// Close the entire conference: every participant is let go (the caller
    /// closes their peer connections) and the answer is the closing message.
    pub fn close(&mut self) -> (msg: String)
        ensures
            final(self).wf(),
            final(self).id() == old(self).id(),
            final(self).members() == Seq::<Seq<char>>::empty(),
            msg@ == "Conference "@ + old(self).id() + " closed"@,
    {
        self.participants = Vec::new();
        assert(self.members() =~= Seq::<Seq<char>>::empty());
        let mut msg = "Conference ".to_string();
        msg.append(self.conference_id.as_str());
        msg.append(" closed");
        msg
    }
}

proof fn lemma_without_absent(v: Seq<Seq<char>>, id: Seq<char>)
    requires
        !v.contains(id),
    ensures
        without(v, id) == v,
    decreases v.len(),
{
    if v.len() > 0 {
        let init = v.drop_last();
        assert(!init.contains(id)) by {
            if init.contains(id) {
                let k = choose|k: int| 0 <= k < init.len() && init[k] == id;
                assert(v[k] == id);
            }
        }
        lemma_without_absent(init, id);
        assert(v =~= init.push(v.last()));
        init.lemma_filter_push(v.last(), other_than(id));
        assert(v.last() != id) by {
            assert(v[v.len() - 1] == v.last());
        }
    } else {
        reveal(Seq::filter);
    }
}

proof fn lemma_remove_is_without(v: Seq<Seq<char>>, i: int, id: Seq<char>)
    requires
        v.no_duplicates(),
        0 <= i < v.len(),
        v[i] == id,
    ensures
        without(v, id) == v.remove(i),
    decreases v.len(),
{
    let init = v.drop_last();
    assert(v =~= init.push(v.last()));
    init.lemma_filter_push(v.last(), other_than(id));
    if i == v.len() - 1 {
        assert(!init.contains(id)) by {
            if init.contains(id) {
                let k = choose|k: int| 0 <= k < init.len() && init[k] == id;
                assert(v[k] == v[i]);
            }
        }
        lemma_without_absent(init, id);
        assert(v.remove(i) =~= init);
    } else {
        assert(init.no_duplicates()) by {
            assert forall|a: int, b: int| 0 <= a < init.len() && 0 <= b < init.len() && a != b implies init[a]
                != init[b] by {
                assert(init[a] == v[a] && init[b] == v[b]);
            }
        }
        lemma_remove_is_without(init, i, id);
        assert(v.last() != id) by {
            assert(v[v.len() - 1] == v.last());
        }
        assert(v.remove(i) =~= init.remove(i).push(v.last()));
    }
}

proof fn lemma_no_duplicates_remove(v: Seq<Seq<char>>, i: int)
    requires
        v.no_duplicates(),
        0 <= i < v.len(),
    ensures
        v.remove(i).no_duplicates(),
{
    let r = v.remove(i);
    assert forall|a: int, b: int| 0 <= a < r.len() && 0 <= b < r.len() && a != b implies r[a]
        != r[b] by {
        let a2 = if a < i { a } else { a + 1 };
        let b2 = if b < i { b } else { b + 1 };
        assert(r[a] == v[a2] && r[b] == v[b2]);
    }
}

// ---------------------------------------------------------------------------
// Laws
// ---------------------------------------------------------------------------

/// Leaving undoes joining: a participant who joined and then left leaves
/// the roster as it was.
pub proof fn lemma_leave_undoes_join(members: Seq<Seq<char>>, pid: Seq<char>)
    requires
        members.no_duplicates(),
        !members.contains(pid),
    ensures
        without(members.push(pid), pid) == members,
{
    let pushed = members.push(pid);
    assert(pushed.no_duplicates()) by {
        assert forall|a: int, b: int| 0 <= a < pushed.len() && 0 <= b < pushed.len() && a != b implies pushed[a]
            != pushed[b] by {
            if a == members.len() {
                assert(pushed[b] == members[b]);
            } else if b == members.len() {
                assert(pushed[a] == members[a]);
            } else {
                assert(pushed[a] == members[a] && pushed[b] == members[b]);
            }
        }
    }
    lemma_remove_is_without(pushed, members.len() as int, pid);
    assert(pushed.remove(members.len() as int) =~= members);
}

} // verus!
