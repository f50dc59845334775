use mischief_link::mischief::{
    parse_event, InputDevice, ManyMouseEvent, ManyMouseSession, MischiefEvent, MischiefEventData,
    SessionError, MANYMOUSE_EVENT_ABSMOTION, MANYMOUSE_EVENT_BUTTON, MANYMOUSE_EVENT_DISCONNECT,
    MANYMOUSE_EVENT_RELMOTION, MANYMOUSE_EVENT_SCROLL,
};

fn raw(type_: u32, device: u32, item: u32, value: i32) -> ManyMouseEvent {
    ManyMouseEvent { type_, device, item, value, minval: 0, maxval: 0 }
}

#[test]
fn event_kinds_are_numbered_from_zero() {
    assert_eq!(MANYMOUSE_EVENT_ABSMOTION, 0);
    assert_eq!(MANYMOUSE_EVENT_RELMOTION, 1);
    assert_eq!(MANYMOUSE_EVENT_BUTTON, 2);
    assert_eq!(MANYMOUSE_EVENT_SCROLL, 3);
    assert_eq!(MANYMOUSE_EVENT_DISCONNECT, 4);
}

#[test]
fn default_event_is_an_absolute_motion_of_zeros() {
    assert_eq!(
        ManyMouseEvent::default(),
        ManyMouseEvent { type_: 0, device: 0, item: 0, value: 0, minval: 0, maxval: 0 }
    );
}

#[test]
fn relative_motion_goes_to_the_axis_of_its_item() {
    assert_eq!(
        parse_event(raw(MANYMOUSE_EVENT_RELMOTION, 3, 0, -12)),
        MischiefEvent { device: 3, event_data: MischiefEventData::RelMotion { x: -12, y: 0 } }
    );
    assert_eq!(
        parse_event(raw(MANYMOUSE_EVENT_RELMOTION, 3, 1, 40)),
        MischiefEvent { device: 3, event_data: MischiefEventData::RelMotion { x: 0, y: 40 } }
    );
    assert_eq!(
        parse_event(raw(MANYMOUSE_EVENT_RELMOTION, 0, 7, 5)).event_data,
        MischiefEventData::RelMotion { x: 0, y: 5 }
    );
}

#[test]
fn button_is_pressed_when_its_value_is_one() {
    assert_eq!(
        parse_event(raw(MANYMOUSE_EVENT_BUTTON, 1, 2, 1)),
        MischiefEvent {
            device: 1,
            event_data: MischiefEventData::Button { button: 2, pressed: true }
        }
    );
    assert_eq!(
        parse_event(raw(MANYMOUSE_EVENT_BUTTON, 1, 0, 0)).event_data,
        MischiefEventData::Button { button: 0, pressed: false }
    );
    assert_eq!(
        parse_event(raw(MANYMOUSE_EVENT_BUTTON, 1, 0, 2)).event_data,
        MischiefEventData::Button { button: 0, pressed: false }
    );
}

#[test]
fn other_kinds_carry_only_the_device() {
    assert_eq!(
        parse_event(raw(MANYMOUSE_EVENT_ABSMOTION, 9, 1, 500)),
        MischiefEvent { device: 9, event_data: MischiefEventData::AbsMotion }
    );
    assert_eq!(
        parse_event(raw(MANYMOUSE_EVENT_SCROLL, 9, 0, 1)),
        MischiefEvent { device: 9, event_data: MischiefEventData::Scroll }
    );
    assert_eq!(
        parse_event(raw(MANYMOUSE_EVENT_DISCONNECT, 9, 0, 0)),
        MischiefEvent { device: 9, event_data: MischiefEventData::Disconnect }
    );
}

#[test]
fn init_answer_is_an_error_or_a_count() {
    assert_eq!(ManyMouseSession::call_init(-1), Err(SessionError::Init));
    assert_eq!(ManyMouseSession::call_init(0), Ok(0));
    assert_eq!(ManyMouseSession::call_init(2), Ok(2));
    assert_eq!(ManyMouseSession::call_init(i32::MAX), Ok(2147483647));
    assert_eq!(ManyMouseSession::call_init(-2), Ok(4294967294));
    assert_eq!(ManyMouseSession::call_init(i32::MIN), Ok(2147483648));
}

#[test]
fn session_numbers_its_devices_in_order() {
    let names = vec![Some("Left mouse".to_string()), Some("Right mouse".to_string())];
    let session = ManyMouseSession::init(&names).unwrap();
    assert_eq!(session.devices.len(), 2);
    let InputDevice { id, name } = &session.devices[0];
    assert_eq!((*id, name.as_str()), (0, "Left mouse"));
    let InputDevice { id, name } = &session.devices[1];
    assert_eq!((*id, name.as_str()), (1, "Right mouse"));
}

#[test]
fn session_without_devices_is_empty() {
    let session = ManyMouseSession::init(&Vec::new()).unwrap();
    assert!(session.devices.is_empty());
}

#[test]
fn session_fails_on_a_device_without_a_name() {
    let names = vec![Some("Left mouse".to_string()), None, Some("Right mouse".to_string())];
    assert_eq!(ManyMouseSession::init(&names).unwrap_err(), SessionError::DeviceName);
}

#[test]
fn poll_answer_is_an_error_nothing_or_the_event() {
    let session = ManyMouseSession::init(&Vec::new()).unwrap();
    let event = raw(MANYMOUSE_EVENT_BUTTON, 4, 1, 1);
    assert_eq!(session.poll_event(-1, event), Err(SessionError::Poll));
    assert_eq!(session.poll_event(0, event), Ok(None));
    assert_eq!(session.poll_event(1, event), Ok(Some(event)));
    assert_eq!(session.poll_event(5, event), Ok(Some(event)));
    assert_eq!(session.poll_event(-3, event), Ok(Some(event)));
}

#[test]
fn session_errors_in_words() {
    assert_eq!(SessionError::Init.message(), "Error initializing ManyMouse");
    assert_eq!(SessionError::DeviceName.message(), "Error getting device name");
    assert_eq!(SessionError::Poll.message(), "Error polling ManyMouse");
}
