use crate::attribute::{decode_text, decode_text_spec, DecodeError};
use crate::compile::{all_compiled_from, compile_all, first_fault, Compile};
use crate::once_slot::OnceSlot;
use crate::expression::{CompileError, CompileErrorModel, Fault};
use crate::path::tokenize;
use crate::policy::Policy;
use crate::policy_index::PolicyIndex;
use vstd::prelude::*;

pub use crate::expression::{PatternExpression, WhenConditionOperator};
pub use crate::path::Path;
pub use crate::schema::type_of;

verus! {

/// What a string that may be missing holds.
pub open spec fn optional_text(text: Option<String>) -> Option<Seq<char>> {
    match text {
        Some(text) => Some(text@),
        None => None,
    }
}

/// A key and a value for the service that limits or authorises.
#[derive(Debug, Clone, PartialEq, Eq)]
pub struct DescriptorEntry {
    pub key: String,
    pub value: String,
}

impl View for DescriptorEntry {
    type V = (Seq<char>, Seq<char>);

    open spec fn view(&self) -> (Seq<char>, Seq<char>) {
        (self.key@, self.value@)
    }
}

/// The directive that takes a descriptor's value from an attribute.
#[derive(Debug, Clone)]
pub struct SelectorItem {
    /// The selector of the attribute.
    pub selector: String,
    /// The key of the descriptor. Without it the selector is the key.
    pub key: Option<String>,
    /// The value to use where the attribute is absent. Without it an absent
    /// attribute gives no descriptor.
    pub default: Option<String>,
    pub path: OnceSlot<Path>,
}

impl SelectorItem {
    /// The selector.
    pub open spec fn spec_selector(&self) -> Seq<char> {
        self.selector@
    }

    /// The key that the directive names, if it names one.
    pub open spec fn spec_key(&self) -> Option<Seq<char>> {
        optional_text(self.key)
    }

    /// The value for an absent attribute, if the directive has one.
    pub open spec fn spec_default(&self) -> Option<Seq<char>> {
        optional_text(self.default)
    }

    /// The tokens of the selector, once `compile` has been called.
    pub open spec fn spec_path(&self) -> Option<Seq<Seq<char>>> {
        match self.path@ {
            Some(path) => Some(path@),
            None => None,
        }
    }

    /// The key under which the descriptor goes out.
    pub open spec fn spec_descriptor_key(&self) -> Seq<char> {
        match self.spec_key() {
            Some(key) => key,
            None => self.spec_selector(),
        }
    }

    /// The descriptor that the directive gives for an attribute, or for an
    /// absent one: the attribute's text where there is one, else the default,
    /// else nothing.
    pub open spec fn spec_descriptor(&self, attribute: Option<Seq<u8>>) -> Result<
        Option<(Seq<char>, Seq<char>)>,
        DecodeError,
    > {
        match attribute {
            Some(raw) => match decode_text_spec(raw) {
                Ok(text) => Ok(Some((self.spec_descriptor_key(), text))),
                Err(error) => Err(error),
            },
            None => match self.spec_default() {
                Some(text) => Ok(Some((self.spec_descriptor_key(), text))),
                None => Ok(None),
            },
        }
    }

    /// The error that reports a fault of this directive.
    pub open spec fn error_of(&self, fault: Fault) -> CompileErrorModel {
        CompileErrorModel { fault, selector: self.spec_selector(), operator: None, value: None }
    }

    /// A directive that is not compiled yet.
    pub fn new(selector: String, key: Option<String>, default: Option<String>) -> (item:
        SelectorItem)
        ensures
            item.spec_selector() == selector@,
            item.spec_key() == optional_text(key),
            item.spec_default() == optional_text(default),
            item.spec_path() is None,
    {
        SelectorItem { selector, key, default, path: OnceSlot::new() }
    }

    /// Splits the selector into its path, once. A second call fails and
    /// changes nothing.
    pub fn compile(&mut self) -> (result: Result<(), CompileError>)
        ensures
            final(self).selector == old(self).selector,
            final(self).key == old(self).key,
            final(self).default == old(self).default,
            match result {
                Ok(()) => old(self).spec_path() is None && final(self).spec_path() == Some(
                    tokenize(old(self).spec_selector()),
                ),
                Err(error) => {
                    &&& old(self).spec_path() is Some
                    &&& *final(self) == *old(self)
                    &&& error@ == old(self).error_of(Fault::AlreadyCompiled)
                },
            },
    {
        let path = Path::from(self.selector.as_str());
        match self.path.set(path) {
            Ok(()) => Ok(()),
            Err(_) => Err(
                CompileError {
                    fault: Fault::AlreadyCompiled,
                    selector: self.selector.clone(),
                    operator: None,
                    value: None,
                },
            ),
        }
    }

    /// Whether `compile` has been called.
    pub fn is_compiled(&self) -> (compiled: bool)
        ensures
            compiled == self.spec_path() is Some,
    {
        self.path.is_set()
    }

    /// The path of the selector.
    pub fn path(&self) -> (path: &Path)
        requires
            self.spec_path() is Some,
        ensures
            Some(path@) == self.spec_path(),
    {
        self.path.get().unwrap()
    }

    /// The key under which the descriptor goes out.
    pub fn descriptor_key(&self) -> (key: String)
        ensures
            key@ == self.spec_descriptor_key(),
    {
        match &self.key {
            Some(key) => key.clone(),
            None => self.selector.clone(),
        }
    }

    /// The descriptor for an attribute as the host handed it over, or for an
    /// absent one.
    pub fn descriptor(&self, attribute: Option<&Vec<u8>>) -> (entry: Result<
        Option<DescriptorEntry>,
        DecodeError,
    >)
        ensures
            match entry {
                Ok(Some(entry)) => self.spec_descriptor(optional_bytes(attribute)) == Ok::<
                    Option<(Seq<char>, Seq<char>)>,
                    DecodeError,
                >(Some(entry@)),
                Ok(None) => self.spec_descriptor(optional_bytes(attribute)) == Ok::<
                    Option<(Seq<char>, Seq<char>)>,
                    DecodeError,
                >(None),
                Err(error) => self.spec_descriptor(optional_bytes(attribute)) == Err::<
                    Option<(Seq<char>, Seq<char>)>,
                    DecodeError,
                >(error),
            },
    {
        let value = match attribute {
            Some(raw) => match decode_text(raw.as_slice()) {
                Ok(text) => text,
                Err(error) => {
                    return Err(error);
                },
            },
            None => match &self.default {
                Some(text) => text.clone(),
                None => {
                    return Ok(None);
                },
            },
        };
        Ok(Some(DescriptorEntry { key: self.descriptor_key(), value }))
    }
}

/// The bytes of an attribute that may be absent.
pub open spec fn optional_bytes(attribute: Option<&Vec<u8>>) -> Option<Seq<u8>> {
    match attribute {
        Some(raw) => Some(raw@),
        None => None,
    }
}

/// The directive that gives a fixed descriptor.
#[derive(Debug, Clone)]
pub struct StaticItem {
    pub value: String,
    pub key: String,
}

/// A directive of either kind.
#[derive(Debug, Clone)]
pub enum DataType {
    Static(StaticItem),
    Selector(SelectorItem),
}

impl DataType {
    /// The descriptor that the directive gives: the fixed one, or that of the
    /// selector for the attribute.
    pub open spec fn spec_descriptor(&self, attribute: Option<Seq<u8>>) -> Result<
        Option<(Seq<char>, Seq<char>)>,
        DecodeError,
    > {
        match self {
            DataType::Static(item) => Ok(Some((item.key@, item.value@))),
            DataType::Selector(item) => item.spec_descriptor(attribute),
        }
    }

    /// The error that compiling meets: that of a selector that was compiled
    /// before.
    pub open spec fn spec_fault(&self) -> Option<CompileErrorModel> {
        match self {
            DataType::Static(_) => None,
            DataType::Selector(item) => if item.spec_path() is Some {
                Some(item.error_of(Fault::AlreadyCompiled))
            } else {
                None
            },
        }
    }

    /// `self` is what compiling made of `before`: the same directive, and of
    /// a selector the path is there.
    pub open spec fn spec_compiled_from(&self, before: &Self) -> bool {
        match (self, before) {
            (DataType::Static(after), DataType::Static(before)) => after == before,
            (DataType::Selector(after), DataType::Selector(before)) => {
                &&& after.selector == before.selector
                &&& after.key == before.key
                &&& after.default == before.default
                &&& after.spec_path() == Some(tokenize(before.spec_selector()))
            },
            _ => false,
        }
    }

    /// Compiles the selector of a selector directive. A static directive has
    /// nothing to compile.
    pub fn compile(&mut self) -> (result: Result<(), CompileError>)
        ensures
            match result {
                Ok(()) => old(self).spec_fault() is None && final(self).spec_compiled_from(
                    old(self),
                ),
                Err(error) => old(self).spec_fault() == Some(error@) && *final(self) == *old(self),
            },
    {
        if let DataType::Selector(selector) = self {
            selector.compile()
        } else {
            Ok(())
        }
    }

    /// The descriptor for an attribute as the host handed it over, or for an
    /// absent one.
    pub fn descriptor(&self, attribute: Option<&Vec<u8>>) -> (entry: Result<
        Option<DescriptorEntry>,
        DecodeError,
    >)
        ensures
            match entry {
                Ok(Some(entry)) => self.spec_descriptor(optional_bytes(attribute)) == Ok::<
                    Option<(Seq<char>, Seq<char>)>,
                    DecodeError,
                >(Some(entry@)),
                Ok(None) => self.spec_descriptor(optional_bytes(attribute)) == Ok::<
                    Option<(Seq<char>, Seq<char>)>,
                    DecodeError,
                >(None),
                Err(error) => self.spec_descriptor(optional_bytes(attribute)) == Err::<
                    Option<(Seq<char>, Seq<char>)>,
                    DecodeError,
                >(error),
            },
    {
        match self {
            DataType::Static(item) => Ok(
                Some(DescriptorEntry { key: item.key.clone(), value: item.value.clone() }),
            ),
            DataType::Selector(item) => item.descriptor(attribute),
        }
    }
}

impl Compile for DataType {
    open spec fn fault(&self) -> Option<CompileErrorModel> {
        self.spec_fault()
    }

    open spec fn compiled_from(&self, before: &Self) -> bool {
        self.spec_compiled_from(before)
    }

    open spec fn failed_from(&self, before: &Self) -> bool {
        *self == *before
    }

    fn compile_in_place(&mut self) -> (result: Result<(), CompileError>) {
        self.compile()
    }
}

/// One directive of a rule.
#[derive(Debug, Clone)]
pub struct DataItem {
    pub item: DataType,
}

impl Compile for DataItem {
    open spec fn fault(&self) -> Option<CompileErrorModel> {
        self.item.fault()
    }

    open spec fn compiled_from(&self, before: &Self) -> bool {
        self.item.compiled_from(&before.item)
    }

    open spec fn failed_from(&self, before: &Self) -> bool {
        *self == *before
    }

    fn compile_in_place(&mut self) -> (result: Result<(), CompileError>) {
        self.item.compile()
    }
}

/// What to do with a request when the filter meets a failure that it cannot
/// recover from.
#[derive(Debug, Clone, Copy, PartialEq, Eq, Structural)]
pub enum FailureMode {
    Deny,
    Allow,
}

/// The configuration as it is read.
#[derive(Debug, Clone)]
pub struct PluginConfiguration {
    pub policies: Vec<Policy>,
    pub failure_mode: FailureMode,
}

/// The configuration as the filter uses it: every policy compiled, and
/// reachable by its hostnames.
pub struct FilterConfig {
    pub index: PolicyIndex,
    pub failure_mode: FailureMode,
}

impl Default for FilterConfig {
    fn default() -> (config: Self)
        ensures
            config.index@.policies.len() == 0,
            config.index.bindings().len() == 0,
            config.failure_mode == FailureMode::Deny,
    {
        FilterConfig { index: PolicyIndex::new(), failure_mode: FailureMode::Deny }
    }
}

impl FilterConfig {
    /// Compiles every directive and every condition of every policy, in the
    /// order in which they stand, and files the policies under their
    /// hostnames. The first error ends it: no configuration comes of a policy
    /// that does not compile.
    pub fn try_from(config: PluginConfiguration) -> (result: Result<FilterConfig, CompileError>)
        ensures
            match result {
                Ok(filter) => {
                    &&& first_fault(config.policies@) is None
                    &&& all_compiled_from(filter.index@.policies, config.policies@)
                    &&& filter.index.bindings() == crate::policy_index::bindings_of(
                        filter.index@.policies,
                    )
                    &&& filter.failure_mode == config.failure_mode
                },
                Err(error) => first_fault(config.policies@) == Some(error@),
            },
    {
        let mut policies = config.policies;
        match compile_all(&mut policies) {
            Ok(()) => {},
            Err(error) => {
                return Err(error);
            },
        }
        Ok(FilterConfig { index: PolicyIndex::from_policies(policies), failure_mode: config.failure_mode })
    }
}

} // verus!
