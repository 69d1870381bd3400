use plugin_sdk::channel::Reply;
use plugin_sdk::datastore::Data;
use plugin_sdk::error::ManagerError;
use plugin_sdk::orchestrator::{Action, Event, Module, Orchestrator, Phase, Stage};
use plugin_sdk::plugin::Plugin;
use plugin_sdk::registry::PluginRegistry;
use plugin_sdk::value::{FloatText, Value};

type Run = fn(String, String) -> Reply;

fn read_float(text: &String) -> Option<u64> {
    text.parse::<f64>().ok().map(f64::to_bits)
}

fn write_float(bits: u64) -> String {
    f64::from_bits(bits).to_string()
}

fn stages(orchestrator: &Orchestrator) -> Vec<Stage> {
    orchestrator.modules().iter().map(|module| module.stage).collect()
}

#[test]
fn a_run_begins_by_asking_for_discovery() {
    let orchestrator = Orchestrator::new();
    assert_eq!(orchestrator.phase(), Phase::Discover);
    assert_eq!(orchestrator.pending(), Action::Discover);
    assert!(orchestrator.modules().is_empty());
}

#[test]
fn two_plugins_run_from_discovery_to_exit() {
    let mut data = Data::new(FloatText::new(read_float, write_float));
    let mut registry = PluginRegistry::<Run>::new();
    let mut orchestrator = Orchestrator::new();

    // Module 0 has no update of its own; module 1 has one.
    assert_eq!(orchestrator.step(Event::Discovered(vec![false, true])), Action::Init(0));
    assert_eq!(orchestrator.phase(), Phase::Initializing);

    let a = registry
        .register_plugin(Plugin::<Run>::new("A".to_string(), "1".to_string(), None))
        .unwrap();
    data.create_value("Plugin1".to_string(), &a, Value::Str("hello".to_string())).unwrap();
    assert_eq!(orchestrator.step(Event::InitReturned(Ok(()))), Action::Init(1));

    let b = registry
        .register_plugin(Plugin::<Run>::new("B".to_string(), "1".to_string(), None))
        .unwrap();
    assert_eq!(orchestrator.step(Event::InitReturned(Ok(()))), Action::StartUpdate(1));
    assert_eq!(orchestrator.phase(), Phase::Running);

    assert_eq!(orchestrator.step(Event::UpdateStarted), Action::AwaitUpdates);
    assert_eq!(stages(&orchestrator), vec![Stage::Ready, Stage::Updating]);
    let seen = data.get_value(&data.get_data_handle("Plugin1").unwrap()).unwrap();
    assert_eq!(seen, Value::Str("hello".to_string()));
    let finish =
        data.create_value("Finish".to_string(), &b, Value::Float(0.0f64.to_bits())).unwrap();

    // The barrier holds until the driver reports that every unit finished.
    assert_eq!(orchestrator.pending(), Action::AwaitUpdates);
    assert_eq!(orchestrator.step(Event::EndReturned), Action::AwaitUpdates);
    assert_eq!(orchestrator.phase(), Phase::Running);
    assert_eq!(orchestrator.step(Event::UpdatesFinished), Action::End(0));
    assert_eq!(orchestrator.phase(), Phase::Draining);
    assert_eq!(stages(&orchestrator), vec![Stage::Ready, Stage::Updated]);

    assert!(registry.deregister_plugin(&a));
    assert_eq!(orchestrator.step(Event::EndReturned), Action::End(1));
    assert!(registry.deregister_plugin(&b));
    assert_eq!(orchestrator.step(Event::EndReturned), Action::Exit);
    assert_eq!(orchestrator.phase(), Phase::Terminated);
    assert_eq!(stages(&orchestrator), vec![Stage::Ended, Stage::Ended]);

    assert!(registry.get_plugin(&"A".to_string()).is_none());
    assert!(registry.get_plugin(&"B".to_string()).is_none());
    assert_eq!(data.get_data_handle("Finish"), Some(finish));
    assert_eq!(data.get_value(&finish), Ok(Value::Float(0.0f64.to_bits())));
    assert_eq!(orchestrator.step(Event::EndReturned), Action::Exit);
}

#[test]
fn a_module_whose_init_fails_takes_no_further_part() {
    let mut orchestrator = Orchestrator::new();
    assert_eq!(orchestrator.step(Event::Discovered(vec![true, true, false])), Action::Init(0));
    assert_eq!(orchestrator.step(Event::InitReturned(Err(ManagerError::InitializationFailure))), Action::Init(1));
    assert_eq!(orchestrator.step(Event::InitReturned(Ok(()))), Action::Init(2));
    assert_eq!(orchestrator.step(Event::InitReturned(Ok(()))), Action::StartUpdate(1));
    assert_eq!(stages(&orchestrator), vec![Stage::Excluded, Stage::Ready, Stage::Ready]);
    assert_eq!(orchestrator.step(Event::UpdateStarted), Action::AwaitUpdates);
    assert_eq!(orchestrator.step(Event::UpdatesFinished), Action::End(1));
    assert_eq!(orchestrator.step(Event::EndReturned), Action::End(2));
    assert_eq!(orchestrator.step(Event::EndReturned), Action::Exit);
    assert_eq!(stages(&orchestrator), vec![Stage::Excluded, Stage::Ended, Stage::Ended]);
    assert_eq!(
        orchestrator.modules()[0],
        Module { has_update: true, stage: Stage::Excluded }
    );
}

#[test]
fn updates_are_started_in_the_order_of_discovery_and_all_before_the_barrier() {
    let mut orchestrator = Orchestrator::new();
    assert_eq!(
        orchestrator.step(Event::Discovered(vec![true, false, true, true])),
        Action::Init(0)
    );
    for next in [Action::Init(1), Action::Init(2), Action::Init(3), Action::StartUpdate(0)] {
        assert_eq!(orchestrator.step(Event::InitReturned(Ok(()))), next);
    }
    assert_eq!(orchestrator.step(Event::UpdatesFinished), Action::StartUpdate(0));
    assert_eq!(orchestrator.step(Event::UpdateStarted), Action::StartUpdate(2));
    assert_eq!(orchestrator.step(Event::UpdateStarted), Action::StartUpdate(3));
    assert_eq!(orchestrator.step(Event::UpdateStarted), Action::AwaitUpdates);
    assert_eq!(orchestrator.step(Event::UpdateStarted), Action::AwaitUpdates);
    assert_eq!(
        stages(&orchestrator),
        vec![Stage::Updating, Stage::Ready, Stage::Updating, Stage::Updating]
    );
    assert_eq!(orchestrator.step(Event::UpdatesFinished), Action::End(0));
    for next in [Action::End(1), Action::End(2), Action::End(3), Action::Exit] {
        assert_eq!(orchestrator.step(Event::EndReturned), next);
    }
}

#[test]
fn a_crashed_update_unit_ends_the_run_at_once() {
    let mut orchestrator = Orchestrator::new();
    assert_eq!(orchestrator.step(Event::Discovered(vec![true, true])), Action::Init(0));
    assert_eq!(orchestrator.step(Event::InitReturned(Ok(()))), Action::Init(1));
    assert_eq!(orchestrator.step(Event::InitReturned(Ok(()))), Action::StartUpdate(0));
    assert_eq!(orchestrator.step(Event::UpdateStarted), Action::StartUpdate(1));
    assert_eq!(orchestrator.step(Event::UpdateCrashed), Action::Abort);
    assert_eq!(orchestrator.phase(), Phase::Terminated);
    assert_eq!(orchestrator.step(Event::EndReturned), Action::Abort);
    assert_eq!(orchestrator.step(Event::UpdatesFinished), Action::Abort);
    assert_eq!(stages(&orchestrator), vec![Stage::Updating, Stage::Ready]);
}

#[test]
fn a_run_without_modules_passes_the_barrier_and_exits() {
    let mut orchestrator = Orchestrator::new();
    assert_eq!(orchestrator.step(Event::Discovered(vec![])), Action::AwaitUpdates);
    assert_eq!(orchestrator.phase(), Phase::Running);
    assert_eq!(orchestrator.step(Event::UpdatesFinished), Action::Exit);
    assert_eq!(orchestrator.phase(), Phase::Terminated);
}

#[test]
fn a_run_in_which_every_init_fails_ends_no_module() {
    let mut orchestrator = Orchestrator::new();
    assert_eq!(orchestrator.step(Event::Discovered(vec![true, false])), Action::Init(0));
    assert_eq!(orchestrator.step(Event::InitReturned(Err(ManagerError::InitializationFailure))), Action::Init(1));
    assert_eq!(orchestrator.step(Event::InitReturned(Err(ManagerError::InitializationFailure))), Action::AwaitUpdates);
    assert_eq!(orchestrator.step(Event::UpdatesFinished), Action::Exit);
    assert_eq!(stages(&orchestrator), vec![Stage::Excluded, Stage::Excluded]);
}

#[test]
fn a_report_that_answers_no_request_is_ignored() {
    let mut orchestrator = Orchestrator::new();
    assert_eq!(orchestrator.step(Event::InitReturned(Ok(()))), Action::Discover);
    assert_eq!(orchestrator.step(Event::UpdateCrashed), Action::Discover);
    assert_eq!(orchestrator.step(Event::Discovered(vec![false])), Action::Init(0));
    assert_eq!(orchestrator.step(Event::Discovered(vec![true, true])), Action::Init(0));
    assert_eq!(orchestrator.step(Event::UpdateStarted), Action::Init(0));
    assert_eq!(orchestrator.step(Event::UpdateCrashed), Action::Init(0));
    assert_eq!(orchestrator.modules().len(), 1);
    assert_eq!(orchestrator.step(Event::InitReturned(Ok(()))), Action::AwaitUpdates);
    assert_eq!(orchestrator.step(Event::InitReturned(Err(ManagerError::InitializationFailure))), Action::AwaitUpdates);
    assert_eq!(stages(&orchestrator), vec![Stage::Ready]);
}
