use crate::policy::Policy;
use crate::text::chars_of;
use vstd::prelude::*;

verus! {

/// The hostnames of a policy, each with the place of the policy.
pub open spec fn hostname_bindings(policy: Policy, place: int) -> Seq<(Seq<char>, int)> {
    Seq::new(policy.hostnames@.len(), |j: int| (policy.hostnames[j]@, place))
}

/// What a list of bindings holds.
pub open spec fn binding_views(bindings: Seq<(String, usize)>) -> Seq<(Seq<char>, int)> {
    Seq::new(bindings.len(), |i: int| (bindings[i].0@, bindings[i].1 as int))
}

/// The hostnames of the policies of `policies` from place `upto` back to the
/// first, each with the place of its policy: policy by policy, and within a
/// policy in the order of its hostnames.
pub open spec fn bindings_upto(policies: Seq<Policy>, upto: int) -> Seq<(Seq<char>, int)>
    decreases upto,
{
    if upto <= 0 {
        Seq::empty()
    } else {
        bindings_upto(policies, upto - 1) + hostname_bindings(policies[upto - 1], upto - 1)
    }
}

/// The hostnames of all the policies, each with the place of its policy.
pub open spec fn bindings_of(policies: Seq<Policy>) -> Seq<(Seq<char>, int)> {
    bindings_upto(policies, policies.len() as int)
}

/// The key under which a hostname of a policy is filed. A hostname that
/// starts with `*` stands for every hostname that ends as it goes on after the
/// `*`; any other one stands for itself alone, which the `$` in front of its
/// key sees to.
pub open spec fn binding_key(hostname: Seq<char>) -> Seq<char> {
    if hostname.len() > 0 && hostname[0] == '*' {
        hostname.skip(1).push('.')
    } else {
        seq!['$'] + hostname.push('.')
    }
}

/// The key under which a hostname is looked up.
pub open spec fn lookup_key(hostname: Seq<char>) -> Seq<char> {
    seq!['$'] + hostname.push('.')
}

/// `text` ends with `ending`.
pub open spec fn ends_with(text: Seq<char>, ending: Seq<char>) -> bool {
    &&& ending.len() <= text.len()
    &&& text.skip(text.len() - ending.len()) == ending
}

/// The binding at place `i` is the one that a lookup of `hostname` finds: its
/// key ends the lookup key, no binding with a longer key does, and none with
/// a key as long came later.
pub open spec fn is_longest_match(
    bindings: Seq<(Seq<char>, int)>,
    hostname: Seq<char>,
    i: int,
) -> bool {
    &&& 0 <= i < bindings.len()
    &&& ends_with(lookup_key(hostname), binding_key(bindings[i].0))
    &&& forall|j: int|
        0 <= j < bindings.len() && ends_with(
            lookup_key(hostname),
            #[trigger] binding_key(bindings[j].0),
        ) ==> binding_key(bindings[j].0).len() < binding_key(bindings[i].0).len() || (binding_key(
            bindings[j].0,
        ).len() == binding_key(bindings[i].0).len() && j <= i)
}

/// No binding has a key that ends the lookup key of `hostname`.
pub open spec fn has_no_match(bindings: Seq<(Seq<char>, int)>, hostname: Seq<char>) -> bool {
    forall|j: int|
        0 <= j < bindings.len() ==> !ends_with(
            lookup_key(hostname),
            #[trigger] binding_key(bindings[j].0),
        )
}

fn key_of(hostname: &str, lookup: bool) -> (key: Vec<char>)
    ensures
        key@ == if lookup {
            lookup_key(hostname@)
        } else {
            binding_key(hostname@)
        },
{
    let chars = chars_of(hostname);
    let wildcard = !lookup && chars.len() > 0 && chars[0] == '*';
    let mut key: Vec<char> = Vec::new();
    if !wildcard {
        key.push('$');
    }
    let ghost head = key@;
    let start: usize = if wildcard {
        1
    } else {
        0
    };
    let mut i: usize = start;
    while i < chars.len()
        invariant
            start <= i <= chars.len(),
            key@ == head + chars@.subrange(start as int, i as int),
        decreases chars.len() - i,
    {
        key.push(chars[i]);
        i = i + 1;
    }
    key.push('.');
    proof {
        assert(chars@.subrange(start as int, chars.len() as int) =~= chars@.skip(start as int));
        if wildcard {
            assert(key@ =~= chars@.skip(1).push('.'));
        } else {
            assert(chars@.skip(0) =~= chars@);
            assert(key@ =~= seq!['$'] + chars@.push('.'));
        }
    }
    key
}

fn has_ending(text: &Vec<char>, ending: &Vec<char>) -> (found: bool)
    ensures
        found == ends_with(text@, ending@),
{
    if ending.len() > text.len() {
        return false;
    }
    let shift = text.len() - ending.len();
    let mut i: usize = 0;
    while i < ending.len()
        invariant
            shift == text.len() - ending.len(),
            i <= ending.len(),
            forall|k: int| 0 <= k < i ==> text[shift + k] == ending[k],
        decreases ending.len() - i,
    {
        if text[shift + i] != ending[i] {
            assert(text@.skip(shift as int)[i as int] != ending@[i as int]);
            return false;
        }
        i = i + 1;
    }
    assert(text@.skip(shift as int) =~= ending@);
    true
}

/// Policies, each under the hostnames that it names.
pub struct PolicyIndex {
    policies: Vec<Policy>,
    bindings: Vec<(String, usize)>,
}

/// What a `PolicyIndex` holds: the policies in the order in which they came,
/// and the hostnames, each with the place of its policy.
pub struct PolicyIndexModel {
    pub policies: Seq<Policy>,
    pub bindings: Seq<(Seq<char>, int)>,
}

impl View for PolicyIndex {
    type V = PolicyIndexModel;

    closed spec fn view(&self) -> PolicyIndexModel {
        PolicyIndexModel { policies: self.policies@, bindings: binding_views(self.bindings@) }
    }
}

impl PolicyIndex {
    /// Every binding names a policy of the index.
    #[verifier::type_invariant]
    spec fn well_formed(self) -> bool {
        forall|i: int|
            0 <= i < self.bindings.len() ==> (#[trigger] self.bindings[i]).1 < self.policies.len()
    }

    /// The hostnames, each with the place of its policy, in the order in
    /// which they came.
    pub open spec fn bindings(&self) -> Seq<(Seq<char>, int)> {
        self@.bindings
    }

    /// An index without policies.
    pub fn new() -> (index: PolicyIndex)
        ensures
            index@.policies.len() == 0,
            index.bindings().len() == 0,
    {
        PolicyIndex { policies: Vec::new(), bindings: Vec::new() }
    }

    /// The index of the policies, each under its hostnames.
    pub fn from_policies(policies: Vec<Policy>) -> (index: PolicyIndex)
        ensures
            index@.policies == policies@,
            index.bindings() == bindings_of(policies@),
    {
        let mut bindings: Vec<(String, usize)> = Vec::new();
        let mut i: usize = 0;
        while i < policies.len()
            invariant
                i <= policies.len(),
                binding_views(bindings@) == bindings_upto(policies@, i as int),
                forall|k: int| 0 <= k < bindings.len() ==> (#[trigger] bindings[k]).1 < i,
            decreases policies.len() - i,
        {
            let ghost before = binding_views(bindings@);
            let ghost added = hostname_bindings(policies[i as int], i as int);
            let mut j: usize = 0;
            assert(binding_views(bindings@) =~= before + added.take(0));
            while j < policies[i].hostnames.len()
                invariant
                    i < policies.len(),
                    j <= policies[i as int].hostnames.len(),
                    added == hostname_bindings(policies[i as int], i as int),
                    binding_views(bindings@) == before + added.take(j as int),
                    forall|k: int| 0 <= k < bindings.len() ==> (#[trigger] bindings[k]).1 <= i,
                decreases policies[i as int].hostnames.len() - j,
            {
                let ghost held = binding_views(bindings@);
                bindings.push((policies[i].hostnames[j].clone(), i));
                assert(binding_views(bindings@) =~= held.push(added[j as int]));
                assert(added.take(j + 1) =~= added.take(j as int).push(added[j as int]));
                j = j + 1;
            }
            assert(added.take(j as int) =~= added);
            i = i + 1;
        }
        PolicyIndex { policies, bindings }
    }

    /// The policy filed under the hostname that comes closest to `hostname`:
    /// under `hostname` itself, or else under the longest wildcard that it
    /// ends with.
    pub fn get_longest_match_policy(&self, hostname: &str) -> (found: Option<&Policy>)
        ensures
            match found {
                Some(policy) => exists|i: int|
                    is_longest_match(self.bindings(), hostname@, i) && 0 <= (
                    #[trigger] self.bindings()[i]).1 < self@.policies.len() && *policy
                        == self@.policies[self.bindings()[i].1],
                None => has_no_match(self.bindings(), hostname@),
            },
    {
        proof {
            use_type_invariant(self);
        }
        let wanted = key_of(hostname, true);
        let mut best: Option<usize> = None;
        let mut longest: usize = 0;
        let mut i: usize = 0;
        while i < self.bindings.len()
            invariant
                i <= self.bindings.len(),
                wanted@ == lookup_key(hostname@),
                match best {
                    Some(b) => {
                        &&& b < i
                        &&& longest == binding_key(self.bindings[b as int].0@).len()
                        &&& ends_with(wanted@, binding_key(self.bindings[b as int].0@))
                        &&& forall|j: int|
                            0 <= j < i && ends_with(
                                wanted@,
                                #[trigger] binding_key(self.bindings[j].0@),
                            ) ==> binding_key(self.bindings[j].0@).len() < longest || (binding_key(
                                self.bindings[j].0@,
                            ).len() == longest && j <= b)
                    },
                    None => forall|j: int|
                        0 <= j < i ==> !ends_with(
                            wanted@,
                            #[trigger] binding_key(self.bindings[j].0@),
                        ),
                },
            decreases self.bindings.len() - i,
        {
            let key = key_of(self.bindings[i].0.as_str(), false);
            if has_ending(&wanted, &key) && (best.is_none() || key.len() >= longest) {
                best = Some(i);
                longest = key.len();
            }
            i = i + 1;
        }
        match best {
            Some(b) => {
                let place = self.bindings[b].1;
                proof {
                    let bindings = self.bindings();
                    assert(bindings[b as int] == (
                        self.bindings[b as int].0@,
                        self.bindings[b as int].1 as int,
                    ));
                    assert forall|j: int|
                        0 <= j < bindings.len() && ends_with(
                            lookup_key(hostname@),
                            #[trigger] binding_key(bindings[j].0),
                        ) implies binding_key(bindings[j].0).len() < binding_key(
                        bindings[b as int].0,
                    ).len() || (binding_key(bindings[j].0).len() == binding_key(
                        bindings[b as int].0,
                    ).len() && j <= b) by {
                        assert(bindings[j].0 == self.bindings[j].0@);
                    }
                    assert(is_longest_match(bindings, hostname@, b as int));
                }
                Some(&self.policies[place])
            },
            None => {
                proof {
                    let bindings = self.bindings();
                    assert forall|j: int| 0 <= j < bindings.len() implies !ends_with(
                        lookup_key(hostname@),
                        #[trigger] binding_key(bindings[j].0),
                    ) by {
                        assert(bindings[j].0 == self.bindings[j].0@);
                    }
                }
                None
            },
        }
    }

    /// The policies.
    pub fn policies(&self) -> (policies: &Vec<Policy>)
        ensures
            policies@ == self@.policies,
    {
        &self.policies
    }
}

} // verus!
