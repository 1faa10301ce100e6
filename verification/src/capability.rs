use vstd::prelude::*;

verus! {

/// Named capabilities an agent may be granted.
///
/// Only capabilities present in a [`CapabilitySet`] may authorize
/// external-style effects. Local bookkeeping (journal append, step
/// recording) does not require a capability.
#[derive(Debug, Clone, Copy, PartialEq, Eq, Hash, Structural)]
pub enum Capability {
    /// Emit a local log line (side-effect stub; never leaves the process).
    Log,
    /// Write a local artifact path (stub; recorded, not performed on disk).
    WriteLocal,
    /// External-style network fetch (stub; never dials the network).
    HttpFetch,
}

/// An effect that would touch the outside world if executed for real.
///
/// Effects are typed and gated, never executed against real I/O: the
/// runtime only records the allow/deny decision in the journal.
#[derive(Debug, PartialEq, Eq)]
pub enum Effect {
    Log { message: String },
    WriteLocal { path: String, content: String },
    HttpFetch { url: String },
}

/// The mathematical value of an [`Effect`]: its kind and its texts.
pub enum EffectView {
    Log { message: Seq<char> },
    WriteLocal { path: Seq<char>, content: Seq<char> },
    HttpFetch { url: Seq<char> },
}

impl View for Effect {
    type V = EffectView;

    open spec fn view(&self) -> EffectView {
        match self {
            Effect::Log { message } => EffectView::Log { message: message@ },
            Effect::WriteLocal { path, content } => EffectView::WriteLocal {
                path: path@,
                content: content@,
            },
            Effect::HttpFetch { url } => EffectView::HttpFetch { url: url@ },
        }
    }
}

impl Clone for Effect {
    fn clone(&self) -> (r: Self)
        ensures
            r == *self,
    {
        match self {
            Effect::Log { message } => Effect::Log { message: message.clone() },
            Effect::WriteLocal { path, content } => Effect::WriteLocal {
                path: path.clone(),
                content: content.clone(),
            },
            Effect::HttpFetch { url } => Effect::HttpFetch { url: url.clone() },
        }
    }
}

/// The capability that an effect of this kind requires.
pub open spec fn capability_for(effect: EffectView) -> Capability {
    match effect {
        EffectView::Log { .. } => Capability::Log,
        EffectView::WriteLocal { .. } => Capability::WriteLocal,
        EffectView::HttpFetch { .. } => Capability::HttpFetch,
    }
}

impl Effect {
    /// Capability required to perform this effect.
    pub fn required_capability(&self) -> (c: Capability)
        ensures
            c == capability_for(self@),
    {
        match self {
            Effect::Log { .. } => Capability::Log,
            Effect::WriteLocal { .. } => Capability::WriteLocal,
            Effect::HttpFetch { .. } => Capability::HttpFetch,
        }
    }
}

/// The granted list after one grant: a capability already present is not
/// added again, a new one goes to the end.
pub open spec fn grant_one(granted: Seq<Capability>, cap: Capability) -> Seq<Capability> {
    if granted.contains(cap) {
        granted
    } else {
        granted.push(cap)
    }
}

/// The granted list after granting each of `caps` in order.
pub open spec fn grant_each(granted: Seq<Capability>, caps: Seq<Capability>) -> Seq<Capability>
    decreases caps.len(),
{
    if caps.len() == 0 {
        granted
    } else {
        grant_one(grant_each(granted, caps.drop_last()), caps.last())
    }
}

/// Explicit set of granted capabilities for a task/session.
///
/// Its view is the list of granted capabilities in the order of their
/// first grant; no capability occurs twice in it.
#[derive(Debug, PartialEq, Eq)]
pub struct CapabilitySet {
    granted: Vec<Capability>,
}

impl View for CapabilitySet {
    type V = Seq<Capability>;

    closed spec fn view(&self) -> Seq<Capability> {
        self.granted@
    }
}

impl CapabilitySet {
    #[verifier::type_invariant]
    spec fn no_repeats(&self) -> bool {
        self.granted@.no_duplicates()
    }

    /// The empty set: nothing is granted.
    pub fn new() -> (s: Self)
        ensures
            s@ == Seq::<Capability>::empty(),
    {
        CapabilitySet { granted: Vec::new() }
    }

    /// The set that grants each of `caps`, in order, duplicates ignored.
    pub fn with<const N: usize>(caps: [Capability; N]) -> (s: Self)
        ensures
            s@ == grant_each(Seq::empty(), caps@),
            forall|c: Capability| s@.contains(c) <==> caps@.contains(c),
            s@.no_duplicates(),
    {
        let mut set = Self::new();
        let items = caps.as_slice();
        let mut i: usize = 0;
        while i < items.len()
            invariant
                i <= items@.len(),
                items@ == caps@,
                set@ == grant_each(Seq::empty(), caps@.take(i as int)),
            decreases items@.len() - i,
        {
            proof {
                assert(caps@.take(i + 1).drop_last() =~= caps@.take(i as int));
            }
            set.grant(items[i]);
            i = i + 1;
        }
        proof {
            assert(caps@.take(i as int) =~= caps@);
            lemma_grant_each_contains(Seq::empty(), caps@);
            use_type_invariant(&set);
        }
        set
    }

    /// Grant `cap`; granting one that is already present changes nothing.
    pub fn grant(&mut self, cap: Capability)
        ensures
            final(self)@ == grant_one(old(self)@, cap),
    {
        proof {
            use_type_invariant(&*self);
        }
        if !self.is_granted(cap) {
            let mut granted = Vec::new();
            std::mem::swap(&mut granted, &mut self.granted);
            granted.push(cap);
            proof {
                lemma_push_new_keeps_no_duplicates(old(self)@, cap);
            }
            self.granted = granted;
        }
    }

    /// Whether `cap` has been granted.
    pub fn is_granted(&self, cap: Capability) -> (b: bool)
        ensures
            b == self@.contains(cap),
    {
        let mut i: usize = 0;
        while i < self.granted.len()
            invariant
                i <= self.granted@.len(),
                forall|j: int| 0 <= j < i ==> self.granted@[j] != cap,
            decreases self.granted@.len() - i,
        {
            if self.granted[i] == cap {
                return true;
            }
            i = i + 1;
        }
        false
    }

    /// Returns `Ok(())` only when the required capability is present;
    /// otherwise the missing capability.
    pub fn authorize(&self, effect: &Effect) -> (r: Result<(), Capability>)
        ensures
            r == (if self@.contains(capability_for(effect@)) {
                Ok::<(), Capability>(())
            } else {
                Err(capability_for(effect@))
            }),
    {
        let need = effect.required_capability();
        if self.is_granted(need) {
            Ok(())
        } else {
            Err(need)
        }
    }

    /// The granted capabilities, in the order of their first grant.
    pub fn granted(&self) -> (g: &[Capability])
        ensures
            g@ == self@,
    {
        self.granted.as_slice()
    }
}

/// A capability is in the list built by granting `caps` exactly when it was
/// already there or is one of `caps`; granting never repeats one.
pub proof fn lemma_grant_each_contains(start: Seq<Capability>, caps: Seq<Capability>)
    ensures
        forall|c: Capability|
            grant_each(start, caps).contains(c) <==> (start.contains(c) || caps.contains(c)),
        start.no_duplicates() ==> grant_each(start, caps).no_duplicates(),
    decreases caps.len(),
{
    if caps.len() > 0 {
        lemma_grant_each_contains(start, caps.drop_last());
        let prev = grant_each(start, caps.drop_last());
        assert forall|c: Capability|
            grant_each(start, caps).contains(c) <==> (start.contains(c) || caps.contains(c)) by {
            if caps.contains(c) && !caps.drop_last().contains(c) {
                let k = choose|k: int| 0 <= k < caps.len() && caps[k] == c;
                if k < caps.len() - 1 {
                    assert(caps.drop_last()[k] == c);
                }
            }
            if caps.drop_last().contains(c) {
                let k = choose|k: int| 0 <= k < caps.drop_last().len() && caps.drop_last()[k] == c;
                assert(caps[k] == c);
            }
            if !prev.contains(caps.last()) {
                assert(prev.push(caps.last()).last() == caps.last());
                if prev.push(caps.last()).contains(c) && c != caps.last() {
                    let k = choose|k: int| 0 <= k < prev.push(caps.last()).len() && prev.push(caps.last())[k] == c;
                    assert(prev[k] == c);
                }
                if prev.contains(c) {
                    let k = choose|k: int| 0 <= k < prev.len() && prev[k] == c;
                    assert(prev.push(caps.last())[k] == c);
                }
            }
        }
    }
}

/// Granting keeps every capability already granted, makes the new one
/// granted, and granting the same capability twice is granting it once.
pub proof fn lemma_grant_one(granted: Seq<Capability>, cap: Capability)
    ensures
        grant_one(granted, cap).contains(cap),
        forall|c: Capability| granted.contains(c) ==> grant_one(granted, cap).contains(c),
        grant_one(grant_one(granted, cap), cap) == grant_one(granted, cap),
{
    if !granted.contains(cap) {
        assert(granted.push(cap)[granted.len() as int] == cap);
        assert forall|c: Capability| granted.contains(c) implies granted.push(cap).contains(c) by {
            let k = choose|k: int| 0 <= k < granted.len() && granted[k] == c;
            assert(granted.push(cap)[k] == c);
        }
    }
}

proof fn lemma_push_new_keeps_no_duplicates(s: Seq<Capability>, c: Capability)
    requires
        s.no_duplicates(),
        !s.contains(c),
    ensures
        s.push(c).no_duplicates(),
{
    assert forall|i: int, j: int| 0 <= i < s.push(c).len() && 0 <= j < s.push(c).len() && i != j
        implies s.push(c)[i] != s.push(c)[j] by {
        if i < s.len() && j == s.len() {
            assert(s[i] == s.push(c)[i]);
        }
        if j < s.len() && i == s.len() {
            assert(s[j] == s.push(c)[j]);
        }
    }
}

impl Clone for CapabilitySet {
    fn clone(&self) -> (s: Self)
        ensures
            s@ == self@,
    {
        proof {
            use_type_invariant(self);
        }
        let mut granted: Vec<Capability> = Vec::new();
        let mut i: usize = 0;
        while i < self.granted.len()
            invariant
                i <= self.granted@.len(),
                granted@ == self.granted@.take(i as int),
            decreases self.granted@.len() - i,
        {
            granted.push(self.granted[i]);
            i = i + 1;
            proof {
                assert(granted@ =~= self.granted@.take(i as int));
            }
        }
        proof {
            assert(granted@ =~= self.granted@);
        }
        CapabilitySet { granted }
    }
}

impl Default for CapabilitySet {
    fn default() -> (s: Self)
        ensures
            s@ == Seq::<Capability>::empty(),
    {
        CapabilitySet::new()
    }
}

} // verus!
