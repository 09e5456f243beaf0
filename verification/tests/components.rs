use eventific::component::{Component, ComponentError, Sender};
use eventific::notification::{poll, Notification, SenderStep};
use tokio::sync::broadcast;
use uuid::Uuid;

struct Recorder {
    started_with: Option<u32>,
    refuse: bool,
}

impl Component<u32> for Recorder {
    fn init(&mut self, system: u32) -> Result<(), ComponentError> {
        if self.refuse {
            return Err(ComponentError { message: "refused".to_string() });
        }
        self.started_with = Some(system);
        Ok(())
    }

    fn component_name(&self) -> &str {
        "recorder"
    }
}

struct Projection {
    subscription: Option<broadcast::Receiver<Uuid>>,
    refreshed: Vec<u128>,
}

impl Sender<u32> for Projection {
    fn init(&mut self, _system: &u32, subscription: broadcast::Receiver<Uuid>) -> Result<(), ComponentError> {
        self.subscription = Some(subscription);
        Ok(())
    }

    fn name(&self) -> &str {
        "projection"
    }
}

impl Projection {
    fn run(&mut self) {
        let subscription = self.subscription.as_mut().unwrap();
        loop {
            match poll(subscription).1 {
                SenderStep::Refresh(id) => self.refreshed.push(id),
                SenderStep::Resynchronize => self.refreshed.clear(),
                SenderStep::Wait | SenderStep::Stop => break,
            }
        }
    }
}

#[test]
fn a_component_is_initialized_with_the_system_handle() {
    let mut recorder = Recorder { started_with: None, refuse: false };
    assert_eq!(recorder.component_name(), "recorder");
    assert_eq!(recorder.init(7), Ok(()));
    assert_eq!(recorder.started_with, Some(7));
}

#[test]
fn a_component_may_refuse_to_start() {
    let mut recorder = Recorder { started_with: None, refuse: true };
    assert_eq!(recorder.init(7), Err(ComponentError { message: "refused".to_string() }));
    assert_eq!(recorder.started_with, None);
}

#[test]
fn a_sender_consumes_its_subscription() {
    let (publisher, subscription) = broadcast::channel::<Uuid>(8);
    let mut projection = Projection { subscription: None, refreshed: Vec::new() };
    assert_eq!(projection.name(), "projection");
    assert_eq!(projection.init(&1, subscription), Ok(()));
    publisher.send(Uuid::from_u128(10)).unwrap();
    publisher.send(Uuid::from_u128(11)).unwrap();
    projection.run();
    assert_eq!(projection.refreshed, vec![10, 11]);
    drop(publisher);
    let subscription = projection.subscription.as_mut().unwrap();
    assert_eq!(poll(subscription), (Notification::Closed, SenderStep::Stop));
}
