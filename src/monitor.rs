//! The monitoring scheduler: a one-way life cycle `Idle -> Running ->
//! Stopped` around the device registry. The periodic timer and the sources
//! are driven from outside; each tick hands this type the scan pass, and it
//! decides whether the pass is reconciled and which events go out.
use crate::device::{device_views, CoreError, Device, DeviceEvent, DeviceView, event_views};
use crate::registry::{diff_events, diff_store, ids_unique, DeviceRegistry};
use core::time::Duration;
use vstd::prelude::*;

verus! {

/// Where a monitor is in its life cycle. `Stopped` is final.
#[derive(Debug, Clone, Copy, PartialEq, Eq, Structural)]
pub enum MonitorState {
    Idle,
    Running,
    Stopped,
}

/// The mathematical value of a [`LinuxDeviceMonitor`].
pub struct MonitorView {
    pub state: MonitorState,
    pub devices: Seq<DeviceView>,
    pub interval: Option<Duration>,
}

/// The scheduler and the registry it owns.
pub struct LinuxDeviceMonitor {
    registry: DeviceRegistry,
    state: MonitorState,
    interval: Option<Duration>,
}

impl View for LinuxDeviceMonitor {
    type V = MonitorView;

    closed spec fn view(&self) -> MonitorView {
        MonitorView { state: self.state, devices: self.registry@, interval: self.interval }
    }
}

impl LinuxDeviceMonitor {
    /// Every tracked id occurs once.
    pub open spec fn wf(&self) -> bool {
        ids_unique(self@.devices)
    }

    /// An idle monitor with an empty registry.
    pub fn new() -> (r: Result<LinuxDeviceMonitor, CoreError>)
        ensures
            r is Ok,
            r->Ok_0.wf(),
            r->Ok_0@.state == MonitorState::Idle,
            r->Ok_0@.devices == Seq::<DeviceView>::empty(),
            r->Ok_0@.interval is None,
    {
        Ok(LinuxDeviceMonitor { registry: DeviceRegistry::new(), state: MonitorState::Idle, interval: None })
    }

    /// A fresh, idle monitor that takes over this one's registry; the way to
    /// monitor again after a stop.
    pub fn successor(self) -> (r: LinuxDeviceMonitor)
        requires
            self.wf(),
        ensures
            r.wf(),
            r@.state == MonitorState::Idle,
            r@.devices == self@.devices,
            r@.interval is None,
    {
        LinuxDeviceMonitor { registry: self.registry, state: MonitorState::Idle, interval: None }
    }

    /// Starts periodic monitoring at the given interval. A running monitor
    /// refuses with `MonitorAlreadyRunning` and a stopped one with
    /// `MonitorStopped`; a refusal changes nothing.
    pub fn start_monitoring(&mut self, interval: Duration) -> (r: Result<(), CoreError>)
        requires
            old(self).wf(),
        ensures
            final(self).wf(),
            old(self)@.state == MonitorState::Idle ==> r is Ok && final(self)@ == (MonitorView {
                state: MonitorState::Running,
                interval: Some(interval),
                ..old(self)@
            }),
            old(self)@.state == MonitorState::Running ==> (r matches Err(
                CoreError::MonitorAlreadyRunning,
            )) && final(self)@ == old(self)@,
            old(self)@.state == MonitorState::Stopped ==> (r matches Err(
                CoreError::MonitorStopped,
            )) && final(self)@ == old(self)@,
    {
        match self.state {
            MonitorState::Idle => {
                self.state = MonitorState::Running;
                self.interval = Some(interval);
                Ok(())
            },
            MonitorState::Running => Err(CoreError::MonitorAlreadyRunning),
            MonitorState::Stopped => Err(CoreError::MonitorStopped),
        }
    }

    /// Stops a running monitor for good. Stopping a monitor that is not
    /// running does nothing: a stopped one stays stopped and one that never
    /// started can still start.
    pub fn stop_monitoring(&mut self)
        requires
            old(self).wf(),
        ensures
            final(self).wf(),
            old(self)@.state == MonitorState::Running ==> final(self)@ == (MonitorView {
                state: MonitorState::Stopped,
                ..old(self)@
            }),
            old(self)@.state != MonitorState::Running ==> final(self)@ == old(self)@,
    {
        match self.state {
            MonitorState::Running => {
                self.state = MonitorState::Stopped;
            },
            _ => {},
        }
    }

    /// Whether the monitor is running.
    pub fn is_running(&self) -> (r: bool)
        ensures
            r == (self@.state == MonitorState::Running),
    {
        match self.state {
            MonitorState::Running => true,
            _ => false,
        }
    }

    /// The interval the monitor was started with.
    pub fn interval(&self) -> (r: Option<Duration>)
        ensures
            r == self@.interval,
    {
        self.interval
    }

    /// One tick of the periodic loop with the pass scanned for it: while
    /// running, the pass is reconciled and its events returned in diff order;
    /// otherwise nothing happens and no event goes out.
    pub fn on_tick(&mut self, scanned: Vec<Device>) -> (events: Vec<DeviceEvent>)
        requires
            old(self).wf(),
        ensures
            final(self).wf(),
            old(self)@.state == MonitorState::Running ==> final(self)@ == (MonitorView {
                devices: diff_store(old(self)@.devices, device_views(scanned@)),
                ..old(self)@
            }) && event_views(events@) == diff_events(old(self)@.devices, device_views(scanned@)),
            old(self)@.state != MonitorState::Running ==> (final(self)@ == old(self)@
                && events@.len() == 0),
    {
        match self.state {
            MonitorState::Running => self.registry.diff(scanned),
            _ => Vec::new(),
        }
    }

    /// Reconciles a pass on demand, whatever the life-cycle state.
    pub fn refresh_devices(&mut self, scanned: Vec<Device>) -> (events: Vec<DeviceEvent>)
        requires
            old(self).wf(),
        ensures
            final(self).wf(),
            final(self)@ == (MonitorView {
                devices: diff_store(old(self)@.devices, device_views(scanned@)),
                ..old(self)@
            }),
            event_views(events@) == diff_events(old(self)@.devices, device_views(scanned@)),
    {
        self.registry.diff(scanned)
    }

    /// A point-in-time copy of the tracked records.
    pub fn get_current_devices(&self) -> (r: Vec<Device>)
        requires
            self.wf(),
        ensures
            device_views(r@) == self@.devices,
            ids_unique(device_views(r@)),
    {
        self.registry.snapshot()
    }
}

} // verus!
