//! The tables of the shader language that attributes are checked against:
//! what each capability is called, what it declares and needs, and what
//! each execution model and mode needs.

use vstd::prelude::*;
use crate::meta::same_text;

verus! {

/// A capability, by its number.
pub type Capability = u32;

/// An execution model, by its number.
pub type ExecutionModel = u32;

/// The number of the execution mode that gives the size of a workgroup.
pub const EXECUTION_MODE_LOCAL_SIZE: u32 = 17;

/// An execution mode of an entry point.
#[derive(Clone, Copy, Debug, PartialEq, Eq, Structural, Hash)]
pub enum ExecutionMode {
    /// The size of a workgroup.
    LocalSize { x: u32, y: u32, z: u32 },
    /// Another mode, by its number.
    Other { mode: u32 },
}

impl ExecutionMode {
    pub open spec fn spec_code(&self) -> u32 {
        match self {
            ExecutionMode::LocalSize { .. } => EXECUTION_MODE_LOCAL_SIZE,
            ExecutionMode::Other { mode } => *mode,
        }
    }

    /// The mode's number.
    #[verifier::when_used_as_spec(spec_code)]
    pub fn code(&self) -> (code: u32)
        ensures
            code == self.spec_code(),
    {
        match self {
            ExecutionMode::LocalSize { .. } => EXECUTION_MODE_LOCAL_SIZE,
            ExecutionMode::Other { mode } => *mode,
        }
    }
}

/// What the tables say of one capability.
#[derive(Debug)]
pub struct CapabilityInfo {
    pub name: String,
    /// The capabilities that this one declares along with itself.
    pub implicitly_declares: Vec<Capability>,
    pub required_extensions: Vec<String>,
}

/// What an execution model or mode needs.
#[derive(Debug)]
pub struct Requirements {
    pub required_capabilities: Vec<Capability>,
    pub required_extensions: Vec<String>,
}

/// The tables. Each is indexed by the number of what it describes; a
/// number without an entry stands for nothing that the tables know.
#[derive(Debug)]
pub struct Grammar {
    capabilities: Vec<Option<CapabilityInfo>>,
    execution_models: Vec<Option<Requirements>>,
    execution_modes: Vec<Option<Requirements>>,
}

/// What the numbers of one kind are called: the name of each number that
/// has one, by the number.
#[derive(Debug)]
pub struct Names {
    pub names: Vec<Option<String>>,
}

/// The least number below `bound` that is called `name`.
pub open spec fn spec_number_below(names: Seq<Option<String>>, name: Seq<char>, bound: int) -> Option<
    u32,
>
    decreases bound,
{
    if bound <= 0 {
        None
    } else {
        match spec_number_below(names, name, bound - 1) {
            Some(found) => Some(found),
            None => if names[bound - 1] matches Some(called) && called@ == name {
                Some((bound - 1) as u32)
            } else {
                None
            },
        }
    }
}

/// A name that was found below a bound is found below every bound above.
pub proof fn lemma_number_below_stays(
    names: Seq<Option<String>>,
    name: Seq<char>,
    bound: int,
    above: int,
)
    requires
        bound <= above,
        spec_number_below(names, name, bound) is Some,
    ensures
        spec_number_below(names, name, above) == spec_number_below(names, name, bound),
    decreases above - bound,
{
    if bound < above {
        lemma_number_below_stays(names, name, bound, above - 1);
    }
}

impl Names {
    /// The number that is called `name`: the least, should several be.
    /// Numbers that do not fit in 32 bits are not looked at.
    pub open spec fn spec_number(&self, name: Seq<char>) -> Option<u32> {
        spec_number_below(
            self.names@,
            name,
            if self.names@.len() <= u32::MAX {
                self.names@.len() as int
            } else {
                u32::MAX as int
            },
        )
    }

    /// The number that is called `name`.
    pub fn number(&self, name: &str) -> (number: Option<u32>)
        ensures
            number == self.spec_number(name@),
    {
        let bound: usize = if self.names.len() <= u32::MAX as usize {
            self.names.len()
        } else {
            u32::MAX as usize
        };
        let mut i: usize = 0;
        while i < bound
            invariant
                i <= bound,
                bound <= self.names@.len(),
                bound <= u32::MAX,
                bound == if self.names@.len() <= u32::MAX {
                    self.names@.len() as int
                } else {
                    u32::MAX as int
                },
                spec_number_below(self.names@, name@, i as int) is None,
            decreases bound - i,
        {
            match &self.names[i] {
                Some(called) => {
                    if same_text(called.as_str(), name) {
                        proof {
                            lemma_number_below_stays(self.names@, name@, i + 1, bound as int);
                        }
                        return Some(i as u32);
                    }
                },
                None => {},
            }
            i = i + 1;
        }
        None
    }
}

/// The least number below `bound` whose entry is called `name`.
pub open spec fn spec_named_below(
    entries: Seq<Option<CapabilityInfo>>,
    name: Seq<char>,
    bound: int,
) -> Option<Capability>
    decreases bound,
{
    if bound <= 0 {
        None
    } else {
        match spec_named_below(entries, name, bound - 1) {
            Some(found) => Some(found),
            None => if entries[bound - 1] matches Some(info) && info.name@ == name {
                Some((bound - 1) as u32)
            } else {
                None
            },
        }
    }
}

/// A name that was found below a bound is found below every bound above.
pub proof fn lemma_named_below_stays(
    entries: Seq<Option<CapabilityInfo>>,
    name: Seq<char>,
    bound: int,
    above: int,
)
    requires
        bound <= above,
        spec_named_below(entries, name, bound) is Some,
    ensures
        spec_named_below(entries, name, above) == spec_named_below(entries, name, bound),
    decreases above - bound,
{
    if bound < above {
        lemma_named_below_stays(entries, name, bound, above - 1);
    }
}

/// Whether a table of capabilities can be used: every capability has a
/// number of 32 bits, and what a capability declares has an entry of its
/// own.
pub open spec fn spec_tables_wf(capabilities: Seq<Option<CapabilityInfo>>) -> bool {
    &&& capabilities.len() <= u32::MAX
    &&& forall|c: int, d: int|
        0 <= c < capabilities.len() && capabilities[c] is Some && 0 <= d
            < capabilities[c]->0.implicitly_declares@.len() ==> {
            let declared = #[trigger] capabilities[c]->0.implicitly_declares@[d];
            declared < capabilities.len() && capabilities[declared as int] is Some
        }
}

impl Grammar {
    pub closed spec fn spec_capabilities(&self) -> Seq<Option<CapabilityInfo>> {
        self.capabilities@
    }

    pub closed spec fn spec_execution_models(&self) -> Seq<Option<Requirements>> {
        self.execution_models@
    }

    pub closed spec fn spec_execution_modes(&self) -> Seq<Option<Requirements>> {
        self.execution_modes@
    }

    /// The tables' invariant: every capability has a number of 32 bits,
    /// and what a capability declares has an entry of its own.
    pub open spec fn wf(&self) -> bool {
        spec_tables_wf(self.spec_capabilities())
    }

    /// Whether the tables have an entry for a capability.
    pub open spec fn spec_knows(&self, capability: Capability) -> bool {
        capability < self.spec_capabilities().len() && self.spec_capabilities()[capability as int]
            is Some
    }

    /// The capability that is called `name`: the one with the least number,
    /// should several be.
    pub open spec fn spec_capability_named(&self, name: Seq<char>) -> Option<Capability> {
        spec_named_below(self.spec_capabilities(), name, self.spec_capabilities().len() as int)
    }

    /// The capabilities that `capability` declares along with itself; none
    /// where the tables do not know it.
    pub open spec fn spec_implicitly_declares(&self, capability: Capability) -> Seq<Capability> {
        if self.spec_knows(capability) {
            self.spec_capabilities()[capability as int]->0.implicitly_declares@
        } else {
            Seq::empty()
        }
    }

    /// The capabilities that an execution model needs; none where the
    /// tables do not know it.
    pub open spec fn spec_model_capabilities(&self, model: ExecutionModel) -> Seq<Capability> {
        if model < self.spec_execution_models().len() && self.spec_execution_models()[model as int]
            is Some {
            self.spec_execution_models()[model as int]->0.required_capabilities@
        } else {
            Seq::empty()
        }
    }

    /// The capabilities that an execution mode needs; none where the
    /// tables do not know it.
    pub open spec fn spec_mode_capabilities(&self, mode: ExecutionMode) -> Seq<Capability> {
        let code = mode.spec_code();
        if code < self.spec_execution_modes().len() && self.spec_execution_modes()[code as int]
            is Some {
            self.spec_execution_modes()[code as int]->0.required_capabilities@
        } else {
            Seq::empty()
        }
    }

    /// The extensions that an execution model needs; none where the tables
    /// do not know it.
    pub open spec fn spec_model_extension_names(&self, model: ExecutionModel) -> Seq<String> {
        if model < self.spec_execution_models().len() && self.spec_execution_models()[model as int]
            is Some {
            self.spec_execution_models()[model as int]->0.required_extensions@
        } else {
            Seq::empty()
        }
    }

    /// The extensions that an execution mode needs; none where the tables
    /// do not know it.
    pub open spec fn spec_mode_extension_names(&self, mode: ExecutionMode) -> Seq<String> {
        let code = mode.spec_code();
        if code < self.spec_execution_modes().len() && self.spec_execution_modes()[code as int]
            is Some {
            self.spec_execution_modes()[code as int]->0.required_extensions@
        } else {
            Seq::empty()
        }
    }

    /// The extensions that an execution model needs.
    pub fn model_extension_names(&self, model: ExecutionModel) -> (names: &[String])
        ensures
            names@ == self.spec_model_extension_names(model),
    {
        match self.model_requirements(model) {
            Some(needs) => needs.required_extensions.as_slice(),
            None => {
                let none: &[String; 0] = &[];
                none.as_slice()
            },
        }
    }

    /// The extensions that an execution mode needs.
    pub fn mode_extension_names(&self, mode: &ExecutionMode) -> (names: &[String])
        ensures
            names@ == self.spec_mode_extension_names(*mode),
    {
        match self.mode_requirements(mode) {
            Some(needs) => needs.required_extensions.as_slice(),
            None => {
                let none: &[String; 0] = &[];
                none.as_slice()
            },
        }
    }

    /// Tells whether what every capability of `capabilities` declares has
    /// an entry of its own.
    fn declares_known(capabilities: &Vec<Option<CapabilityInfo>>) -> (known: bool)
        ensures
            known == (forall|c: int, d: int|
                0 <= c < capabilities@.len() && capabilities@[c] is Some && 0 <= d
                    < capabilities@[c]->0.implicitly_declares@.len() ==> {
                    let declared = #[trigger] capabilities@[c]->0.implicitly_declares@[d];
                    declared < capabilities@.len() && capabilities@[declared as int] is Some
                }),
    {
        let mut c: usize = 0;
        while c < capabilities.len()
            invariant
                c <= capabilities@.len(),
                forall|i: int, d: int|
                    0 <= i < c && capabilities@[i] is Some && 0 <= d
                        < capabilities@[i]->0.implicitly_declares@.len() ==> {
                        let declared = #[trigger] capabilities@[i]->0.implicitly_declares@[d];
                        declared < capabilities@.len() && capabilities@[declared as int] is Some
                    },
            decreases capabilities@.len() - c,
        {
            match &capabilities[c] {
                Some(info) => {
                    let mut d: usize = 0;
                    while d < info.implicitly_declares.len()
                        invariant
                            c < capabilities@.len(),
                            capabilities@[c as int] == Some(*info),
                            d <= info.implicitly_declares@.len(),
                            forall|j: int|
                                0 <= j < d ==> {
                                    let declared = #[trigger] info.implicitly_declares@[j];
                                    declared < capabilities@.len() && capabilities@[declared as int]
                                        is Some
                                },
                        decreases info.implicitly_declares@.len() - d,
                    {
                        let declared: u32 = info.implicitly_declares[d];
                        assert(capabilities@[c as int]->0.implicitly_declares@[d as int] == declared);
                        if declared as usize >= capabilities.len() {
                            return false;
                        }
                        if capabilities[declared as usize].is_none() {
                            return false;
                        }
                        d = d + 1;
                    }
                },
                None => {},
            }
            c = c + 1;
        }
        true
    }

    /// The tables; `None` where a capability has no number of 32 bits or
    /// declares a capability without an entry.
    pub fn new(
        capabilities: Vec<Option<CapabilityInfo>>,
        execution_models: Vec<Option<Requirements>>,
        execution_modes: Vec<Option<Requirements>>,
    ) -> (grammar: Option<Grammar>)
        ensures
            grammar matches Some(g) ==> {
                &&& g.wf()
                &&& g.spec_capabilities() == capabilities@
                &&& g.spec_execution_models() == execution_models@
                &&& g.spec_execution_modes() == execution_modes@
            },
            grammar is Some <==> spec_tables_wf(capabilities@),
    {
        if capabilities.len() > u32::MAX as usize {
            return None;
        }
        if !Self::declares_known(&capabilities) {
            return None;
        }
        Some(Grammar { capabilities, execution_models, execution_modes })
    }

    /// The number of capability numbers that the tables reach.
    pub fn capability_count(&self) -> (count: u32)
        requires
            self.wf(),
        ensures
            count == self.spec_capabilities().len(),
    {
        self.capabilities.len() as u32
    }

    /// The capabilities that `capability` declares along with itself; none
    /// where the tables do not know it.
    pub fn implicitly_declares(&self, capability: Capability) -> (declares: &[Capability])
        ensures
            declares@ == self.spec_implicitly_declares(capability),
    {
        match self.capability_info(capability) {
            Some(info) => info.implicitly_declares.as_slice(),
            None => {
                let none: &[Capability; 0] = &[];
                none.as_slice()
            },
        }
    }

    /// Whether the tables have an entry for a capability.
    pub fn knows(&self, capability: Capability) -> (known: bool)
        ensures
            known == self.spec_knows(capability),
    {
        (capability as usize) < self.capabilities.len() && self.capabilities[capability as usize].is_some()
    }

    /// The capability that is called `name`.
    pub fn capability_named(&self, name: &str) -> (capability: Option<Capability>)
        requires
            self.wf(),
        ensures
            capability == self.spec_capability_named(name@),
            capability matches Some(c) ==> self.spec_knows(c),
    {
        let mut i: usize = 0;
        while i < self.capabilities.len()
            invariant
                self.wf(),
                i <= self.capabilities@.len(),
                spec_named_below(self.capabilities@, name@, i as int) is None,
            decreases self.capabilities@.len() - i,
        {
            match &self.capabilities[i] {
                Some(info) => {
                    if same_text(info.name.as_str(), name) {
                        proof {
                            lemma_named_below_stays(
                                self.capabilities@,
                                name@,
                                i + 1,
                                self.capabilities@.len() as int,
                            );
                        }
                        return Some(i as u32);
                    }
                },
                None => {},
            }
            i = i + 1;
        }
        None
    }

    /// What the tables say of a capability.
    pub fn capability_info(&self, capability: Capability) -> (info: Option<&CapabilityInfo>)
        ensures
            match info {
                Some(info) => self.spec_knows(capability) && *info
                    == self.spec_capabilities()[capability as int]->0,
                None => !self.spec_knows(capability),
            },
    {
        if (capability as usize) < self.capabilities.len() {
            self.capabilities[capability as usize].as_ref()
        } else {
            None
        }
    }

    /// What the tables say of an execution model.
    pub fn model_requirements(&self, model: ExecutionModel) -> (needs: Option<&Requirements>)
        ensures
            match needs {
                Some(needs) => model < self.spec_execution_models().len() && Some(*needs)
                    == self.spec_execution_models()[model as int],
                None => !(model < self.spec_execution_models().len()
                    && self.spec_execution_models()[model as int] is Some),
            },
    {
        if (model as usize) < self.execution_models.len() {
            self.execution_models[model as usize].as_ref()
        } else {
            None
        }
    }

    /// What the tables say of an execution mode.
    pub fn mode_requirements(&self, mode: &ExecutionMode) -> (needs: Option<&Requirements>)
        ensures
            match needs {
                Some(needs) => mode.spec_code() < self.spec_execution_modes().len() && Some(*needs)
                    == self.spec_execution_modes()[mode.spec_code() as int],
                None => !(mode.spec_code() < self.spec_execution_modes().len()
                    && self.spec_execution_modes()[mode.spec_code() as int] is Some),
            },
    {
        let code: u32 = mode.code();
        if (code as usize) < self.execution_modes.len() {
            self.execution_modes[code as usize].as_ref()
        } else {
            None
        }
    }
}

} // verus!
