//! The parachain upgrade pallet: schedules an upgrade of the validation
//! function and applies it once the relay chain reaches the allowed block.
pub use crate::origin::Origin;
use vstd::prelude::*;

verus! {

/// Relay chain block numbers.
pub type RelayChainBlockNumber = u32;

/// A validation function (the code of the parachain runtime).
pub type ValidationFunction = Vec<u8>;

/// The parameters of the validation function that the relay chain hands to the
/// parachain.
#[derive(Clone, Copy, Debug, PartialEq, Eq, Structural)]
pub struct ValidationFunctionParams {
    /// The maximum code size permitted, in bytes.
    pub max_code_size: u32,
    /// The current relay-chain block number.
    pub relay_chain_height: RelayChainBlockNumber,
    /// Whether a code upgrade is allowed or not, and at which height the upgrade
    /// would be applied after inclusion.
    pub code_upgrade_allowed: Option<RelayChainBlockNumber>,
}

impl ValidationFunctionParams {
    pub open spec fn spec_default() -> ValidationFunctionParams {
        ValidationFunctionParams {
            max_code_size: 0,
            relay_chain_height: 0,
            code_upgrade_allowed: None,
        }
    }

    /// Parameters that allow no upgrade.
    pub fn default() -> (r: ValidationFunctionParams)
        ensures
            r == Self::spec_default(),
    {
        ValidationFunctionParams { max_code_size: 0, relay_chain_height: 0, code_upgrade_allowed: None }
    }
}

/// The identity of a runtime version, as far as code upgrades look at it.
pub struct RuntimeVersion {
    /// The name of the runtime specification.
    pub spec_name: Vec<u8>,
    /// The version of the runtime specification.
    pub spec_version: u32,
}

/// Events of the pallet.
#[derive(Clone, Copy, Debug, PartialEq, Eq, Structural)]
pub enum Event {
    /// The validation function has been scheduled to apply as of the contained
    /// relay chain block number.
    ValidationFunctionStored(RelayChainBlockNumber),
    /// The validation function was applied as of the contained relay chain block number.
    ValidationFunctionApplied(RelayChainBlockNumber),
}

/// Errors of the pallet, including those of the system checks of new code.
#[derive(Clone, Copy, Debug, PartialEq, Eq, Structural)]
pub enum Error {
    /// The call does not come from the root origin.
    BadOrigin,
    /// The runtime version of the new code could not be extracted.
    FailedToExtractRuntimeVersion,
    /// The new code has another specification name.
    InvalidSpecName,
    /// The specification version of the new code is not higher than the current one.
    SpecVersionNeedsToIncrease,
    /// Attempt to upgrade validation function while existing upgrade pending
    OverlappingUpgrades,
    /// Polkadot currently prohibits this parachain from upgrading its validation function
    ProhibitedByPolkadot,
    /// The supplied validation function has compiled into a blob larger than
    /// Polkadot is willing to run
    TooBig,
}

/// The error returned when inherent data is missing; it is always fatal.
pub struct ProvideInherentError {}

impl ProvideInherentError {
    pub fn is_fatal_error(&self) -> (r: bool)
        ensures
            r,
    {
        true
    }
}

/// The storage of the pallet as mathematical values.
pub struct ModuleView {
    /// The current runtime version: its name and its version.
    pub version_name: Seq<u8>,
    pub version: u32,
    /// The scheduled validation function with the relay block at which it applies.
    pub pending_validation_function: Option<(RelayChainBlockNumber, Seq<u8>)>,
    /// The parameters provided through the inherent of the block.
    pub vfps: ValidationFunctionParams,
    /// The parameters injected by the collator during block validation.
    pub injected_params: Option<ValidationFunctionParams>,
    /// The new validation code handed to the relay chain.
    pub new_validation_code: Option<Seq<u8>>,
    /// The code the parachain executes.
    pub code: Option<Seq<u8>>,
    /// The events deposited in the current block.
    pub events: Seq<Event>,
}

/// The storage of the pallet.
pub struct Module {
    pub version: RuntimeVersion,
    pub pending_validation_function: Option<(RelayChainBlockNumber, ValidationFunction)>,
    pub vfps: ValidationFunctionParams,
    pub injected_params: Option<ValidationFunctionParams>,
    pub new_validation_code: Option<ValidationFunction>,
    pub code: Option<ValidationFunction>,
    pub events: Vec<Event>,
}

pub open spec fn opt_bytes_view(v: Option<Vec<u8>>) -> Option<Seq<u8>> {
    match v {
        Some(b) => Some(b@),
        None => None,
    }
}

impl View for Module {
    type V = ModuleView;

    open spec fn view(&self) -> ModuleView {
        ModuleView {
            version_name: self.version.spec_name@,
            version: self.version.spec_version,
            pending_validation_function: match self.pending_validation_function {
                Some((b, c)) => Some((b, c@)),
                None => None,
            },
            vfps: self.vfps,
            injected_params: self.injected_params,
            new_validation_code: opt_bytes_view(self.new_validation_code),
            code: opt_bytes_view(self.code),
            events: self.events@,
        }
    }
}

impl ModuleView {
    /// The parameters in force: the injected ones if present, otherwise those of
    /// the inherent.
    pub open spec fn validation_function_params(self) -> ValidationFunctionParams {
        match self.injected_params {
            Some(p) => p,
            None => self.vfps,
        }
    }

    /// The checks the system applies to new code: root origin, and a runtime
    /// version of the same name and of a higher version. `new_version` is the
    /// version read from the new code, if it could be read.
    pub open spec fn check_new_code(self, origin: Origin, new_version: Option<(Seq<u8>, u32)>) -> Result<
        (),
        Error,
    > {
        if origin != Origin::Root {
            Err(Error::BadOrigin)
        } else {
            match new_version {
                None => Err(Error::FailedToExtractRuntimeVersion),
                Some((name, version)) => if name != self.version_name {
                    Err(Error::InvalidSpecName)
                } else if version <= self.version {
                    Err(Error::SpecVersionNeedsToIncrease)
                } else {
                    Ok(())
                },
            }
        }
    }

    /// Schedule `code` as the new validation function.
    pub open spec fn set_code(
        self,
        origin: Origin,
        code: Seq<u8>,
        new_version: Option<(Seq<u8>, u32)>,
    ) -> Result<ModuleView, Error> {
        let vfp = self.validation_function_params();
        match self.check_new_code(origin, new_version) {
            Err(e) => Err(e),
            Ok(_) => if self.pending_validation_function is Some {
                Err(Error::OverlappingUpgrades)
            } else if code.len() > vfp.max_code_size {
                Err(Error::TooBig)
            } else {
                match vfp.code_upgrade_allowed {
                    None => Err(Error::ProhibitedByPolkadot),
                    Some(apply_block) => Ok(
                        ModuleView {
                            new_validation_code: Some(code),
                            pending_validation_function: Some((apply_block, code)),
                            events: self.events.push(Event::ValidationFunctionStored(apply_block)),
                            ..self
                        },
                    ),
                }
            },
        }
    }

    /// Apply the pending validation function once the relay chain reached the
    /// block at which it applies.
    pub open spec fn on_initialize(self) -> ModuleView {
        let height = self.validation_function_params().relay_chain_height;
        match self.pending_validation_function {
            Some((apply_block, code)) => if height >= apply_block {
                ModuleView {
                    pending_validation_function: None,
                    code: Some(code),
                    events: self.events.push(Event::ValidationFunctionApplied(height)),
                    ..self
                }
            } else {
                self
            },
            None => self,
        }
    }
}

/// Whether two byte strings are equal.
pub fn bytes_equal(a: &Vec<u8>, b: &Vec<u8>) -> (r: bool)
    ensures
        r == (a@ == b@),
{
    if a.len() != b.len() {
        return false;
    }
    let mut i: usize = 0;
    while i < a.len()
        invariant
            i <= a.len(),
            a.len() == b.len(),
            forall|j: int| 0 <= j < i ==> a@[j] == b@[j],
        decreases a.len() - i,
    {
        if a[i] != b[i] {
            return false;
        }
        i = i + 1;
    }
    proof {
        assert(a@ =~= b@);
    }
    true
}

/// A copy of a byte string.
pub fn copy_code(v: &Vec<u8>) -> (r: Vec<u8>)
    ensures
        r@ == v@,
{
    crate::chainlink_feed::types::copy_bytes(v)
}

impl Module {
    /// The pallet with the given current runtime version and empty storage.
    pub fn new(version: RuntimeVersion) -> (m: Module)
        ensures
            m@.version_name == version.spec_name@,
            m@.version == version.spec_version,
            m@.pending_validation_function is None,
            m@.vfps == ValidationFunctionParams::spec_default(),
            m@.injected_params is None,
            m@.new_validation_code is None,
            m@.code is None,
            m@.events == Seq::<Event>::empty(),
    {
        Module {
            version,
            pending_validation_function: None,
            vfps: ValidationFunctionParams::default(),
            injected_params: None,
            new_validation_code: None,
            code: None,
            events: Vec::new(),
        }
    }

    /// Get validation function parameters: those injected during block
    /// validation if present, otherwise those of this block's inherent.
    pub fn validation_function_params(&self) -> (r: ValidationFunctionParams)
        ensures
            r == self@.validation_function_params(),
    {
        match self.injected_params {
            Some(p) => p,
            None => self.vfps,
        }
    }

    /// `true` when a code upgrade is currently legal.
    pub fn can_set_code(&self) -> (r: bool)
        ensures
            r == (self@.validation_function_params().code_upgrade_allowed is Some),
    {
        self.validation_function_params().code_upgrade_allowed.is_some()
    }

    /// The maximum code size permitted, in bytes.
    pub fn max_code_size(&self) -> (r: u32)
        ensures
            r == self@.validation_function_params().max_code_size,
    {
        self.validation_function_params().max_code_size
    }

    /// Apply the pending validation function if the relay chain reached its block.
    pub fn on_initialize(&mut self)
        ensures
            final(self)@ == old(self)@.on_initialize(),
    {
        let height = self.validation_function_params().relay_chain_height;
        let apply = match &self.pending_validation_function {
            Some((apply_block, _)) => height >= *apply_block,
            None => false,
        };
        if apply {
            let pending = self.pending_validation_function.take();
            match pending {
                Some((_, code)) => {
                    self.code = Some(code);
                    self.events.push(Event::ValidationFunctionApplied(height));
                },
                None => {},
            }
        }
    }

    /// The checks the system applies to new code.
    pub fn check_new_code(&self, origin: Origin, new_version: &Option<RuntimeVersion>) -> (r: Result<
        (),
        Error,
    >)
        ensures
            r == self@.check_new_code(
                origin,
                match new_version {
                    Some(v) => Some((v.spec_name@, v.spec_version)),
                    None => None,
                },
            ),
    {
        if origin != Origin::Root {
            return Err(Error::BadOrigin);
        }
        match new_version {
            None => Err(Error::FailedToExtractRuntimeVersion),
            Some(v) => if !bytes_equal(&v.spec_name, &self.version.spec_name) {
                Err(Error::InvalidSpecName)
            } else if v.spec_version <= self.version.spec_version {
                Err(Error::SpecVersionNeedsToIncrease)
            } else {
                Ok(())
            },
        }
    }

    /// Schedule a new validation function; `new_version` is the runtime version
    /// read from the new code (`None` when it could not be read).
    pub fn set_code(
        &mut self,
        origin: Origin,
        validation_function: ValidationFunction,
        new_version: Option<RuntimeVersion>,
    ) -> (r: Result<(), Error>)
        ensures
            match old(self)@.set_code(
                origin,
                validation_function@,
                match new_version {
                    Some(v) => Some((v.spec_name@, v.spec_version)),
                    None => None,
                },
            ) {
                Ok(s) => r is Ok && final(self)@ == s,
                Err(e) => r == Err::<(), Error>(e) && final(self)@ == old(self)@,
            },
    {
        self.check_new_code(origin, &new_version)?;
        if self.pending_validation_function.is_some() {
            return Err(Error::OverlappingUpgrades);
        }
        let vfp = self.validation_function_params();
        if validation_function.len() > vfp.max_code_size as usize {
            return Err(Error::TooBig);
        }
        let apply_block = match vfp.code_upgrade_allowed {
            Some(b) => b,
            None => return Err(Error::ProhibitedByPolkadot),
        };
        self.new_validation_code = Some(copy_code(&validation_function));
        self.pending_validation_function = Some((apply_block, validation_function));
        self.events.push(Event::ValidationFunctionStored(apply_block));
        Ok(())
    }

    /// Store the validation function parameters provided through the inherent
    /// data of the block. Creates no inherent call.
    pub fn create_inherent(&mut self, vfp: ValidationFunctionParams) -> (r: Option<()>)
        ensures
            r is None,
            final(self)@ == (ModuleView { vfps: vfp, ..old(self)@ }),
    {
        self.vfps = vfp;
        None
    }

    /// Write the parameters that the collator injects during block validation.
    pub fn inject_params(&mut self, vfp: Option<ValidationFunctionParams>)
        ensures
            final(self)@ == (ModuleView { injected_params: vfp, ..old(self)@ }),
    {
        self.injected_params = vfp;
    }

    /// Remove the new validation code handed to the relay chain.
    pub fn kill_new_validation_code(&mut self)
        ensures
            final(self)@ == (ModuleView { new_validation_code: None, ..old(self)@ }),
    {
        self.new_validation_code = None;
    }

    /// Start a new block: the events of the previous block are dropped.
    pub fn reset_events(&mut self)
        ensures
            final(self)@ == (ModuleView { events: Seq::empty(), ..old(self)@ }),
    {
        self.events = Vec::new();
    }
}

/// New code passes the system's checks only from the root origin, with the
/// current runtime's name and a strictly greater spec version: code of the
/// same or an older version is refused with `SpecVersionNeedsToIncrease`,
/// and no upgrade is ever scheduled with it.
pub proof fn law_upgrades_need_a_newer_version(
    s: ModuleView,
    origin: Origin,
    code: Seq<u8>,
    new_version: Option<(Seq<u8>, u32)>,
)
    ensures
        s.check_new_code(origin, new_version) is Ok <==> (origin == Origin::Root && new_version is Some
            && new_version.unwrap().0 == s.version_name && new_version.unwrap().1 > s.version),
        origin == Origin::Root && new_version is Some && new_version.unwrap().0 == s.version_name
            && new_version.unwrap().1 <= s.version ==> s.check_new_code(origin, new_version) == Err::<(), Error>(
            Error::SpecVersionNeedsToIncrease,
        ) && s.set_code(origin, code, new_version) == Err::<ModuleView, Error>(
            Error::SpecVersionNeedsToIncrease,
        ),
        s.set_code(origin, code, new_version) is Ok ==> new_version is Some && new_version.unwrap().1
            > s.version,
{
}

/// Scheduling new code succeeds only when no upgrade is pending, the code
/// fits the relay chain's size limit and the relay chain allows an upgrade;
/// the code is then pending for exactly the block the relay chain allows,
/// handed to the relay chain, and the running code is not touched yet.
pub proof fn law_set_code_schedules_the_code(
    s: ModuleView,
    origin: Origin,
    code: Seq<u8>,
    new_version: Option<(Seq<u8>, u32)>,
)
    ensures
        s.set_code(origin, code, new_version) matches Ok(s2) ==> {
            let vfp = s.validation_function_params();
            &&& s.pending_validation_function is None
            &&& code.len() <= vfp.max_code_size
            &&& vfp.code_upgrade_allowed is Some
            &&& s2.pending_validation_function == Some((vfp.code_upgrade_allowed.unwrap(), code))
            &&& s2.new_validation_code == Some(code)
            &&& s2.code == s.code
            &&& s2.version == s.version
        },
{
}

/// A block applies the pending code exactly when the relay chain reached the
/// block it was scheduled for; before that, nothing changes.
pub proof fn law_pending_code_waits_its_block(s: ModuleView)
    ensures
        s.pending_validation_function matches Some((apply_block, code)) ==> if s.validation_function_params().relay_chain_height
            >= apply_block {
            s.on_initialize().code == Some(code) && s.on_initialize().pending_validation_function is None
        } else {
            s.on_initialize() == s
        },
        s.pending_validation_function is None ==> s.on_initialize() == s,
{
}

/// Once an upgrade is scheduled, no other can be scheduled until it is applied.
pub proof fn law_no_overlapping_upgrades(
    s: ModuleView,
    origin: Origin,
    code: Seq<u8>,
    new_version: Option<(Seq<u8>, u32)>,
    origin2: Origin,
    code2: Seq<u8>,
    new_version2: Option<(Seq<u8>, u32)>,
)
    requires
        s.set_code(origin, code, new_version) is Ok,
        s.set_code(origin, code, new_version)->Ok_0.check_new_code(origin2, new_version2) is Ok,
    ensures
        s.set_code(origin, code, new_version)->Ok_0.set_code(origin2, code2, new_version2)
            == Err::<ModuleView, Error>(Error::OverlappingUpgrades),
{
}

/// A scheduled upgrade is applied by the first block whose relay chain height
/// reaches the scheduled block, and the parachain then runs the new code.
pub proof fn law_scheduled_upgrade_applies(
    s: ModuleView,
    origin: Origin,
    code: Seq<u8>,
    new_version: Option<(Seq<u8>, u32)>,
    later: ValidationFunctionParams,
)
    requires
        s.set_code(origin, code, new_version) is Ok,
        later.relay_chain_height >= s.validation_function_params().code_upgrade_allowed->0,
    ensures
        ({
            let scheduled = s.set_code(origin, code, new_version)->Ok_0;
            let applied = ModuleView { injected_params: Some(later), ..scheduled }.on_initialize();
            &&& applied.code == Some(code)
            &&& applied.pending_validation_function is None
            &&& applied.events.last() == Event::ValidationFunctionApplied(later.relay_chain_height)
        }),
{
}

} // verus!
