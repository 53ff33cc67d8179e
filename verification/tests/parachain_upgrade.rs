use integritee_parachain::parachain_upgrade::{
    Error, Event, Module, Origin, ProvideInherentError, RelayChainBlockNumber, RuntimeVersion,
    ValidationFunctionParams,
};

struct BlockTest {
    n: u64,
    within_block: Box<dyn Fn(&mut Module)>,
    after_block: Option<Box<dyn Fn(&Module)>>,
}

#[derive(Default)]
struct BlockTests {
    tests: Vec<BlockTest>,
    pending_upgrade: Option<RelayChainBlockNumber>,
    ran: bool,
    vfp_maker: Option<Box<dyn Fn(&BlockTests, RelayChainBlockNumber) -> ValidationFunctionParams>>,
}

fn current_version() -> RuntimeVersion {
    RuntimeVersion { spec_name: b"test".to_vec(), spec_version: 1 }
}

/// The version read from any new code in these tests.
fn new_code_version() -> Option<RuntimeVersion> {
    Some(RuntimeVersion { spec_name: b"test".to_vec(), spec_version: 2 })
}

impl BlockTests {
    fn new() -> BlockTests {
        Default::default()
    }

    fn add_raw(mut self, test: BlockTest) -> Self {
        self.tests.push(test);
        self
    }

    fn add<F>(self, n: u64, within_block: F) -> Self
    where
        F: 'static + Fn(&mut Module),
    {
        self.add_raw(BlockTest { n, within_block: Box::new(within_block), after_block: None })
    }

    fn add_with_post_test<F1, F2>(self, n: u64, within_block: F1, after_block: F2) -> Self
    where
        F1: 'static + Fn(&mut Module),
        F2: 'static + Fn(&Module),
    {
        self.add_raw(BlockTest {
            n,
            within_block: Box::new(within_block),
            after_block: Some(Box::new(after_block)),
        })
    }

    fn with_validation_function_params<F>(mut self, f: F) -> Self
    where
        F: 'static + Fn(&BlockTests, RelayChainBlockNumber) -> ValidationFunctionParams,
    {
        self.vfp_maker = Some(Box::new(f));
        self
    }

    fn run(&mut self) {
        self.ran = true;
        let mut module = Module::new(current_version());
        let tests = std::mem::take(&mut self.tests);
        for BlockTest { n, within_block, after_block } in tests.iter() {
            if let Some(upgrade_block) = self.pending_upgrade {
                if *n >= upgrade_block as u64 {
                    self.pending_upgrade = None;
                }
            }

            module.reset_events();

            let vfp = match self.vfp_maker {
                None => ValidationFunctionParams {
                    max_code_size: 10 * 1024 * 1024,
                    relay_chain_height: *n as RelayChainBlockNumber,
                    code_upgrade_allowed: if self.pending_upgrade.is_some() {
                        None
                    } else {
                        Some(*n as RelayChainBlockNumber + 1000)
                    },
                },
                Some(ref maker) => maker(self, *n as RelayChainBlockNumber),
            };
            module.inject_params(Some(vfp));
            module.kill_new_validation_code();

            module.on_initialize();
            within_block(&mut module);

            if module.new_validation_code.is_some() {
                if self.pending_upgrade.is_some() {
                    panic!("attempted to set validation code while upgrade was pending");
                }
                self.pending_upgrade = vfp.code_upgrade_allowed;
            }

            if let Some(after_block) = after_block {
                after_block(&module);
            }
        }
    }
}

impl Drop for BlockTests {
    fn drop(&mut self) {
        if !self.ran {
            self.run();
        }
    }
}

#[test]
#[should_panic]
fn block_tests_run_on_drop() {
    BlockTests::new().add(123, |_| panic!("if this test passes, block tests run properly"));
}

#[test]
fn requires_root() {
    BlockTests::new().add(123, |m| {
        assert_eq!(m.set_code(Origin::Signed(1), Vec::new(), new_code_version()), Err(Error::BadOrigin));
    });
}

#[test]
fn requires_root_2() {
    BlockTests::new().add(123, |m| {
        assert_eq!(m.set_code(Origin::Root, Vec::new(), new_code_version()), Ok(()));
    });
}

#[test]
fn events() {
    BlockTests::new()
        .add_with_post_test(
            123,
            |m| {
                assert_eq!(m.set_code(Origin::Root, Vec::new(), new_code_version()), Ok(()));
            },
            |m| {
                assert_eq!(m.events[0], Event::ValidationFunctionStored(1123));
            },
        )
        .add_with_post_test(
            1234,
            |_| {},
            |m| {
                assert_eq!(m.events[0], Event::ValidationFunctionApplied(1234));
            },
        );
}

#[test]
fn non_overlapping() {
    BlockTests::new()
        .add(123, |m| {
            assert_eq!(m.set_code(Origin::Root, Vec::new(), new_code_version()), Ok(()));
        })
        .add(234, |m| {
            assert_eq!(
                m.set_code(Origin::Root, Vec::new(), new_code_version()),
                Err(Error::OverlappingUpgrades)
            );
        });
}

#[test]
fn manipulates_storage() {
    BlockTests::new()
        .add(123, |m| {
            assert!(m.pending_validation_function.is_none(), "validation function must not exist yet");
            assert_eq!(m.set_code(Origin::Root, Vec::new(), new_code_version()), Ok(()));
            assert!(m.pending_validation_function.is_some(), "validation function must now exist");
        })
        .add_with_post_test(
            1234,
            |_| {},
            |m| {
                assert!(m.pending_validation_function.is_none(), "validation function must have been unset");
            },
        );
}

#[test]
fn checks_size() {
    BlockTests::new()
        .with_validation_function_params(|_, n| ValidationFunctionParams {
            max_code_size: 32,
            relay_chain_height: n,
            code_upgrade_allowed: Some(n + 1000),
        })
        .add(123, |m| {
            assert_eq!(m.set_code(Origin::Root, vec![0; 64], new_code_version()), Err(Error::TooBig));
        });
}

#[test]
fn new_code_must_be_a_newer_version_of_the_same_runtime() {
    let mut m = Module::new(current_version());
    m.inject_params(Some(ValidationFunctionParams {
        max_code_size: 100,
        relay_chain_height: 5,
        code_upgrade_allowed: Some(7),
    }));
    assert_eq!(m.set_code(Origin::Root, vec![1], None), Err(Error::FailedToExtractRuntimeVersion));
    let other = Some(RuntimeVersion { spec_name: b"other".to_vec(), spec_version: 9 });
    assert_eq!(m.set_code(Origin::Root, vec![1], other), Err(Error::InvalidSpecName));
    let same = Some(RuntimeVersion { spec_name: b"test".to_vec(), spec_version: 1 });
    assert_eq!(m.set_code(Origin::Root, vec![1], same), Err(Error::SpecVersionNeedsToIncrease));
    assert_eq!(m.set_code(Origin::Unsigned, vec![1], new_code_version()), Err(Error::BadOrigin));
    assert!(m.pending_validation_function.is_none());
    assert!(m.events.is_empty());
}

#[test]
fn upgrade_is_prohibited_without_relay_permission() {
    let mut m = Module::new(current_version());
    m.inject_params(Some(ValidationFunctionParams {
        max_code_size: 100,
        relay_chain_height: 5,
        code_upgrade_allowed: None,
    }));
    assert!(!m.can_set_code());
    assert_eq!(m.max_code_size(), 100);
    assert_eq!(m.set_code(Origin::Root, vec![1], new_code_version()), Err(Error::ProhibitedByPolkadot));
}

#[test]
fn scheduled_code_applies_at_its_block_and_not_before() {
    let mut m = Module::new(current_version());
    m.inject_params(Some(ValidationFunctionParams {
        max_code_size: 100,
        relay_chain_height: 5,
        code_upgrade_allowed: Some(8),
    }));
    assert!(m.can_set_code());
    assert_eq!(m.set_code(Origin::Root, vec![1, 2, 3], new_code_version()), Ok(()));
    assert_eq!(m.new_validation_code, Some(vec![1, 2, 3]));
    m.inject_params(Some(ValidationFunctionParams {
        max_code_size: 100,
        relay_chain_height: 7,
        code_upgrade_allowed: None,
    }));
    m.on_initialize();
    assert!(m.code.is_none());
    m.inject_params(Some(ValidationFunctionParams {
        max_code_size: 100,
        relay_chain_height: 8,
        code_upgrade_allowed: None,
    }));
    m.on_initialize();
    assert_eq!(m.code, Some(vec![1, 2, 3]));
    assert!(m.pending_validation_function.is_none());
    assert_eq!(m.events.last(), Some(&Event::ValidationFunctionApplied(8)));
}

#[test]
fn inherent_parameters_are_used_when_none_are_injected() {
    let mut m = Module::new(current_version());
    assert!(!m.can_set_code());
    let vfp = ValidationFunctionParams { max_code_size: 64, relay_chain_height: 3, code_upgrade_allowed: Some(4) };
    assert_eq!(m.create_inherent(vfp), None);
    assert_eq!(m.validation_function_params(), vfp);
    assert!(m.can_set_code());
    assert_eq!(m.max_code_size(), 64);
    assert!(ProvideInherentError {}.is_fatal_error());
}
