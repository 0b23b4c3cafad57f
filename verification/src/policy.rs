use crate::attribute::DecodeError;
use crate::compile::{all_compiled_from, compile_all, first_fault, stopped, Compile};
use crate::configuration::{DataItem, DescriptorEntry};
use crate::expression::{CompileError, CompileErrorModel, EvalError, EvalErrorModel, PatternExpression};
use vstd::prelude::*;
use vstd::slice::slice_to_vec;

verus! {

/// The attribute at a place of a list of fetched attributes. A place beyond
/// the list and an attribute that the host does not have are the same: absent.
pub open spec fn attribute_at(attributes: Seq<Option<Vec<u8>>>, i: int) -> Option<Seq<u8>> {
    if 0 <= i < attributes.len() {
        match attributes[i] {
            Some(raw) => Some(raw@),
            None => None,
        }
    } else {
        None
    }
}

fn attribute(attributes: &Vec<Option<Vec<u8>>>, i: usize) -> (found: Option<&Vec<u8>>)
    ensures
        crate::configuration::optional_bytes(found) == attribute_at(attributes@, i as int),
{
    if i < attributes.len() {
        attributes[i].as_ref()
    } else {
        None
    }
}

/// Whether a condition holds of an attribute: of an absent one it does not.
pub open spec fn holds_of(condition: PatternExpression, attribute: Option<Seq<u8>>) -> Result<
    bool,
    EvalErrorModel,
> {
    match attribute {
        Some(raw) => condition.spec_eval(raw),
        None => Ok(false),
    }
}

/// Whether the conditions from place `from` on all hold, each of the attribute
/// at its place. They are taken in order: the first that does not hold, or
/// that cannot be evaluated, decides.
pub open spec fn all_hold(
    conditions: Seq<PatternExpression>,
    attributes: Seq<Option<Vec<u8>>>,
    from: int,
) -> Result<bool, EvalErrorModel>
    decreases conditions.len() - from,
{
    if from < 0 || from >= conditions.len() {
        Ok(true)
    } else {
        match holds_of(conditions[from], attribute_at(attributes, from)) {
            Ok(true) => all_hold(conditions, attributes, from + 1),
            other => other,
        }
    }
}

/// Conditions that must all hold.
#[derive(Debug, Clone)]
pub struct Condition {
    pub all_of: Vec<PatternExpression>,
}

impl Condition {
    /// Every condition of the group is compiled.
    pub open spec fn is_compiled(&self) -> bool {
        forall|i: int| 0 <= i < self.all_of.len() ==> (#[trigger] self.all_of[i]).spec_compiled() is Some
    }

    /// Whether every condition of the group holds, each of the attribute at
    /// its place in `attributes`. A group without conditions holds.
    pub fn applies(&self, attributes: &Vec<Option<Vec<u8>>>) -> (outcome: Result<bool, EvalError>)
        requires
            self.is_compiled(),
        ensures
            match outcome {
                Ok(flag) => all_hold(self.all_of@, attributes@, 0) == Ok::<bool, EvalErrorModel>(
                    flag,
                ),
                Err(error) => all_hold(self.all_of@, attributes@, 0) == Err::<bool, EvalErrorModel>(
                    error@,
                ),
            },
    {
        let mut i: usize = 0;
        while i < self.all_of.len()
            invariant
                i <= self.all_of.len(),
                self.is_compiled(),
                all_hold(self.all_of@, attributes@, 0) == all_hold(self.all_of@, attributes@, i as int),
            decreases self.all_of.len() - i,
        {
            let met = match attribute(attributes, i) {
                Some(raw) => self.all_of[i].eval(slice_to_vec(raw.as_slice())),
                None => Ok(false),
            };
            match met {
                Ok(true) => {},
                Ok(false) => {
                    return Ok(false);
                },
                Err(error) => {
                    return Err(error);
                },
            }
            i = i + 1;
        }
        Ok(true)
    }
}

impl Compile for Condition {
    open spec fn fault(&self) -> Option<CompileErrorModel> {
        first_fault(self.all_of@)
    }

    open spec fn compiled_from(&self, before: &Self) -> bool {
        all_compiled_from(self.all_of@, before.all_of@)
    }

    open spec fn failed_from(&self, before: &Self) -> bool {
        stopped(self.all_of@, before.all_of@)
    }

    fn compile_in_place(&mut self) -> (result: Result<(), CompileError>) {
        compile_all(&mut self.all_of)
    }
}

/// The descriptors that the directives from place `upto` back to the first
/// give, in order. A directive that gives nothing is left out, and the first
/// attribute that does not decode is an error.
pub open spec fn entries_of(
    data: Seq<DataItem>,
    attributes: Seq<Option<Vec<u8>>>,
    upto: int,
) -> Result<Seq<(Seq<char>, Seq<char>)>, DecodeError>
    decreases upto,
{
    if upto <= 0 {
        Ok(Seq::empty())
    } else {
        match entries_of(data, attributes, upto - 1) {
            Err(error) => Err(error),
            Ok(entries) => match data[upto - 1].item.spec_descriptor(
                attribute_at(attributes, upto - 1),
            ) {
                Err(error) => Err(error),
                Ok(None) => Ok(entries),
                Ok(Some(entry)) => Ok(entries.push(entry)),
            },
        }
    }
}

/// The views of the entries, in order.
pub open spec fn entry_views(entries: Seq<DescriptorEntry>) -> Seq<(Seq<char>, Seq<char>)> {
    Seq::new(entries.len(), |i: int| entries[i]@)
}

/// Directives, and the groups of conditions under which they are used.
#[derive(Debug, Clone)]
pub struct Rule {
    pub conditions: Vec<Condition>,
    pub data: Vec<DataItem>,
}

/// Whether one of the groups from place `from` on holds. They are taken in
/// order: the first that holds, or that cannot be evaluated, decides.
pub open spec fn any_holds(
    groups: Seq<Condition>,
    attributes: Seq<Vec<Option<Vec<u8>>>>,
    from: int,
) -> Result<bool, EvalErrorModel>
    decreases groups.len() - from,
{
    if from < 0 || from >= groups.len() {
        Ok(false)
    } else {
        match all_hold(groups[from].all_of@, group_attributes(attributes, from), 0) {
            Ok(false) => any_holds(groups, attributes, from + 1),
            other => other,
        }
    }
}

/// The attributes fetched for the group at a place: none beyond the list.
pub open spec fn group_attributes(attributes: Seq<Vec<Option<Vec<u8>>>>, i: int) -> Seq<
    Option<Vec<u8>>,
> {
    if 0 <= i < attributes.len() {
        attributes[i]@
    } else {
        Seq::empty()
    }
}

impl Rule {
    /// Every condition of every group is compiled.
    pub open spec fn is_compiled(&self) -> bool {
        forall|i: int| 0 <= i < self.conditions.len() ==> (#[trigger] self.conditions[i]).is_compiled()
    }

    /// Whether the rule applies: a rule without groups always does, any other
    /// where one of its groups holds.
    pub open spec fn spec_applies(&self, attributes: Seq<Vec<Option<Vec<u8>>>>) -> Result<
        bool,
        EvalErrorModel,
    > {
        if self.conditions.len() == 0 {
            Ok(true)
        } else {
            any_holds(self.conditions@, attributes, 0)
        }
    }

    /// Whether the rule applies, given for each group the attributes of its
    /// conditions.
    pub fn applies(&self, attributes: &Vec<Vec<Option<Vec<u8>>>>) -> (outcome: Result<
        bool,
        EvalError,
    >)
        requires
            self.is_compiled(),
        ensures
            match outcome {
                Ok(flag) => self.spec_applies(attributes@) == Ok::<bool, EvalErrorModel>(flag),
                Err(error) => self.spec_applies(attributes@) == Err::<bool, EvalErrorModel>(error@),
            },
    {
        if self.conditions.len() == 0 {
            return Ok(true);
        }
        let none: Vec<Option<Vec<u8>>> = Vec::new();
        let mut i: usize = 0;
        while i < self.conditions.len()
            invariant
                i <= self.conditions.len(),
                self.is_compiled(),
                none@.len() == 0,
                any_holds(self.conditions@, attributes@, 0) == any_holds(
                    self.conditions@,
                    attributes@,
                    i as int,
                ),
            decreases self.conditions.len() - i,
        {
            let fetched = if i < attributes.len() {
                &attributes[i]
            } else {
                &none
            };
            assert(fetched@ =~= group_attributes(attributes@, i as int));
            match self.conditions[i].applies(fetched) {
                Ok(false) => {},
                Ok(true) => {
                    return Ok(true);
                },
                Err(error) => {
                    return Err(error);
                },
            }
            i = i + 1;
        }
        Ok(false)
    }

    /// The descriptors of the rule, given the attribute of each directive at
    /// the directive's place.
    pub fn descriptor_entries(&self, attributes: &Vec<Option<Vec<u8>>>) -> (entries: Result<
        Vec<DescriptorEntry>,
        DecodeError,
    >)
        ensures
            match entries {
                Ok(entries) => entries_of(self.data@, attributes@, self.data.len() as int) == Ok::<
                    Seq<(Seq<char>, Seq<char>)>,
                    DecodeError,
                >(entry_views(entries@)),
                Err(error) => entries_of(self.data@, attributes@, self.data.len() as int) == Err::<
                    Seq<(Seq<char>, Seq<char>)>,
                    DecodeError,
                >(error),
            },
    {
        let mut entries: Vec<DescriptorEntry> = Vec::new();
        let mut i: usize = 0;
        assert(entry_views(entries@) =~= Seq::empty());
        while i < self.data.len()
            invariant
                i <= self.data.len(),
                entries_of(self.data@, attributes@, i as int) == Ok::<
                    Seq<(Seq<char>, Seq<char>)>,
                    DecodeError,
                >(entry_views(entries@)),
            decreases self.data.len() - i,
        {
            let ghost before = entry_views(entries@);
            match self.data[i].item.descriptor(attribute(attributes, i)) {
                Ok(Some(entry)) => {
                    entries.push(entry);
                    assert(entry_views(entries@) =~= before.push(entry@));
                },
                Ok(None) => {},
                Err(error) => {
                    proof {
                        lemma_entries_error(self.data@, attributes@, i + 1, self.data.len() as int);
                    }
                    return Err(error);
                },
            }
            i = i + 1;
        }
        Ok(entries)
    }
}

/// An error among the first directives is the error of the whole list.
proof fn lemma_entries_error(
    data: Seq<DataItem>,
    attributes: Seq<Option<Vec<u8>>>,
    upto: int,
    end: int,
)
    requires
        0 <= upto <= end,
        entries_of(data, attributes, upto) is Err,
    ensures
        entries_of(data, attributes, end) == entries_of(data, attributes, upto),
    decreases end - upto,
{
    if upto < end {
        lemma_entries_error(data, attributes, upto, end - 1);
    }
}

impl Compile for Rule {
    open spec fn fault(&self) -> Option<CompileErrorModel> {
        match first_fault(self.data@) {
            Some(error) => Some(error),
            None => first_fault(self.conditions@),
        }
    }

    open spec fn compiled_from(&self, before: &Self) -> bool {
        &&& all_compiled_from(self.data@, before.data@)
        &&& all_compiled_from(self.conditions@, before.conditions@)
    }

    open spec fn failed_from(&self, before: &Self) -> bool {
        ||| stopped(self.data@, before.data@) && self.conditions == before.conditions
        ||| all_compiled_from(self.data@, before.data@) && stopped(
            self.conditions@,
            before.conditions@,
        )
    }

    fn compile_in_place(&mut self) -> (result: Result<(), CompileError>) {
        match compile_all(&mut self.data) {
            Ok(()) => compile_all(&mut self.conditions),
            Err(error) => Err(error),
        }
    }
}

/// Rules for the requests to some hostnames.
#[derive(Debug, Clone)]
pub struct Policy {
    pub name: String,
    pub domain: String,
    pub service: String,
    pub hostnames: Vec<String>,
    pub rules: Vec<Rule>,
}

impl Compile for Policy {
    open spec fn fault(&self) -> Option<CompileErrorModel> {
        first_fault(self.rules@)
    }

    open spec fn compiled_from(&self, before: &Self) -> bool {
        &&& self.name == before.name
        &&& self.domain == before.domain
        &&& self.service == before.service
        &&& self.hostnames == before.hostnames
        &&& all_compiled_from(self.rules@, before.rules@)
    }

    open spec fn failed_from(&self, before: &Self) -> bool {
        &&& self.name == before.name
        &&& self.domain == before.domain
        &&& self.service == before.service
        &&& self.hostnames == before.hostnames
        &&& stopped(self.rules@, before.rules@)
    }

    fn compile_in_place(&mut self) -> (result: Result<(), CompileError>) {
        compile_all(&mut self.rules)
    }
}

} // verus!
