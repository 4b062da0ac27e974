//! What the application makes of each registry event: it keeps its own copy
//! of the known devices and decides which notification, if any, the event
//! calls for. The low-battery threshold is compared here, on
//! `BatteryChanged` events, not by the notification manager.
use crate::config::{Config, NotificationConfig};
use crate::device::{DeviceEvent, DeviceView, EventView};
use crate::notify::{NotificationType, NotificationView};
use crate::registry::{id_set, position_of, upsert, DeviceRegistry};
use vstd::prelude::*;

verus! {

/// The known devices after an event.
pub open spec fn known_after(e: EventView, known: Seq<DeviceView>) -> Seq<DeviceView> {
    match e {
        EventView::Added(d) => upsert(known, d).0,
        EventView::Updated(d) => upsert(known, d).0,
        EventView::Removed(id) => if id_set(known).contains(id) {
            known.remove(position_of(known, id))
        } else {
            known
        },
        EventView::BatteryChanged(_, _) => known,
    }
}

/// The notification an event calls for, given the devices known before it:
/// a connection notice for an added device and a disconnection notice for a
/// known device that went away (when those are switched on), and a
/// low-battery alert about a known device whose new level is at or below
/// the threshold.
pub open spec fn alert_for(e: EventView, known: Seq<DeviceView>, c: NotificationConfig) -> Option<
    NotificationView,
> {
    match e {
        EventView::Added(d) => if c.show_connect_disconnect {
            Some(NotificationView::Connected(d))
        } else {
            None
        },
        EventView::Updated(_) => None,
        EventView::Removed(id) => if c.show_connect_disconnect && id_set(known).contains(id) {
            Some(NotificationView::Disconnected(known[position_of(known, id)]))
        } else {
            None
        },
        EventView::BatteryChanged(id, level) => if id_set(known).contains(id) && level
            <= c.low_battery_threshold {
            Some(
                NotificationView::LowBattery {
                    device: known[position_of(known, id)],
                    threshold: c.low_battery_threshold,
                },
            )
        } else {
            None
        },
    }
}

/// Applies one registry event to the known devices and returns the
/// notification it calls for.
pub fn handle_device_event(event: DeviceEvent, config: &Config, devices: &mut DeviceRegistry) -> (r:
    Option<NotificationType>)
    requires
        old(devices).wf(),
    ensures
        final(devices).wf(),
        final(devices)@ == known_after(event@, old(devices)@),
        match r {
            Some(n) => alert_for(event@, old(devices)@, config.notifications) == Some(n@),
            None => alert_for(event@, old(devices)@, config.notifications) is None,
        },
{
    let show = config.notifications.show_connect_disconnect;
    match event {
        DeviceEvent::DeviceAdded(device) => {
            let notice = if show {
                Some(NotificationType::DeviceConnected(device.clone()))
            } else {
                None
            };
            devices.put(device);
            notice
        },
        DeviceEvent::DeviceUpdated(device) => {
            devices.put(device);
            None
        },
        DeviceEvent::DeviceRemoved(id) => {
            match devices.remove(&id) {
                Some(device) => if show {
                    Some(NotificationType::DeviceDisconnected(device))
                } else {
                    None
                },
                None => None,
            }
        },
        DeviceEvent::BatteryChanged(id, level) => {
            let threshold = config.notifications.low_battery_threshold;
            match devices.get(&id) {
                Some(device) => if level <= threshold {
                    Some(NotificationType::LowBattery { device, threshold })
                } else {
                    None
                },
                None => None,
            }
        },
    }
}

} // verus!
