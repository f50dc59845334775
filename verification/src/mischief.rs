//! Several mice at once: the list of devices of a session, and the decoding
//! of the raw events that the devices report.

use vstd::prelude::*;

verus! {

/// The kind of a raw event: the position of an absolute axis.
pub const MANYMOUSE_EVENT_ABSMOTION: u32 = 0;

/// The kind of a raw event: a movement along one axis.
pub const MANYMOUSE_EVENT_RELMOTION: u32 = 1;

/// The kind of a raw event: a button went down or up.
pub const MANYMOUSE_EVENT_BUTTON: u32 = 2;

/// The kind of a raw event: a wheel turned.
pub const MANYMOUSE_EVENT_SCROLL: u32 = 3;

/// The kind of a raw event: the device went away.
pub const MANYMOUSE_EVENT_DISCONNECT: u32 = 4;

/// One mouse of a session.
#[derive(Debug)]
pub struct InputDevice {
    pub id: u32,
    pub name: String,
}

/// The mice that were found when the session began, numbered from 0.
#[derive(Debug)]
pub struct ManyMouseSession {
    pub devices: Vec<InputDevice>,
}

/// What can go wrong with a session.
#[derive(Clone, Copy, PartialEq, Eq, Debug, Structural)]
pub enum SessionError {
    /// The driver could not be started.
    Init,
    /// A device that was counted has no name.
    DeviceName,
    /// The driver failed when asked for the next event.
    Poll,
}

/// An event as the driver reports it.
#[derive(Clone, Copy, PartialEq, Eq, Debug, Structural)]
pub struct ManyMouseEvent {
    pub type_: u32,
    pub device: u32,
    pub item: u32,
    pub value: i32,
    pub minval: i32,
    pub maxval: i32,
}

/// What an event says.
#[derive(Clone, Copy, PartialEq, Eq, Debug, Structural)]
pub enum MischiefEventData {
    AbsMotion,
    RelMotion { x: i32, y: i32 },
    Button { button: u32, pressed: bool },
    Scroll,
    Disconnect,
}

/// A decoded event, with the device it came from.
#[derive(Clone, Copy, PartialEq, Eq, Debug, Structural)]
pub struct MischiefEvent {
    pub device: u32,
    pub event_data: MischiefEventData,
}

impl Default for ManyMouseEvent {
    /// The event that a poll starts from: an absolute motion of device 0,
    /// all numbers zero.
    fn default() -> (event: ManyMouseEvent)
        ensures
            event == (ManyMouseEvent {
                type_: MANYMOUSE_EVENT_ABSMOTION,
                device: 0,
                item: 0,
                value: 0,
                minval: 0,
                maxval: 0,
            }),
    {
        ManyMouseEvent {
            type_: MANYMOUSE_EVENT_ABSMOTION,
            device: 0,
            item: 0,
            value: 0,
            minval: 0,
            maxval: 0,
        }
    }
}

impl SessionError {
    /// The error in words.
    pub fn message(&self) -> (text: String)
        ensures
            text@ == match *self {
                SessionError::Init => "Error initializing ManyMouse"@,
                SessionError::DeviceName => "Error getting device name"@,
                SessionError::Poll => "Error polling ManyMouse"@,
            },
    {
        match self {
            SessionError::Init => "Error initializing ManyMouse".to_owned(),
            SessionError::DeviceName => "Error getting device name".to_owned(),
            SessionError::Poll => "Error polling ManyMouse".to_owned(),
        }
    }
}

/// Whether `devices` are the devices of `names`: one device for each name,
/// in order, with its position as its id.
pub open spec fn devices_of(devices: Seq<InputDevice>, names: Seq<Option<String>>) -> bool {
    &&& devices.len() == names.len()
    &&& forall|i: int|
        0 <= i < devices.len() ==> (#[trigger] devices[i]).id == i && names[i] == Some(
            devices[i].name,
        )
}

impl ManyMouseSession {
    /// Reads the driver's answer to being started: -1 says that it failed,
    /// any other answer is the number of devices, taken as unsigned.
    pub fn call_init(init_response: i32) -> (r: Result<u32, SessionError>)
        ensures
            init_response == -1 ==> r == Err::<u32, SessionError>(SessionError::Init),
            init_response >= 0 ==> r == Ok::<u32, SessionError>(init_response as u32),
            init_response < -1 ==> r == Ok::<u32, SessionError>(
                (init_response + 0x1_0000_0000) as u32,
            ),
    {
        if init_response == -1 {
            return Err(SessionError::Init);
        }
        if init_response >= 0 {
            Ok(init_response as u32)
        } else {
            Ok((init_response as i64 + 0x1_0000_0000) as u32)
        }
    }

    /// The session over the devices with the given names, device `i`
    /// having the `i`-th name. A device without a name fails the session.
    pub fn init(names: &Vec<Option<String>>) -> (r: Result<ManyMouseSession, SessionError>)
        requires
            names.len() <= u32::MAX,
        ensures
            match r {
                Ok(session) => devices_of(session.devices@, names@),
                Err(e) => e == SessionError::DeviceName && exists|i: int|
                    0 <= i < names.len() && names[i] is None,
            },
    {
        let mut devices: Vec<InputDevice> = Vec::new();
        let count: usize = names.len();
        let mut id: usize = 0;
        while id < count
            invariant
                count == names.len(),
                count <= u32::MAX,
                id <= count,
                devices_of(devices@, names@.subrange(0, id as int)),
            decreases count - id,
        {
            match &names[id] {
                Some(name) => {
                    devices.push(InputDevice { id: id as u32, name: name.clone() });
                },
                None => {
                    return Err(SessionError::DeviceName);
                },
            }
            id += 1;
        }
        assert(names@.subrange(0, count as int) =~= names@);
        Ok(ManyMouseSession { devices })
    }

    /// Reads the driver's answer to a poll that filled in `event`: -1 says
    /// that it failed, 0 that nothing is waiting, any other answer that
    /// `event` is the next event.
    pub fn poll_event(&self, poll_response: i32, event: ManyMouseEvent) -> (r: Result<
        Option<ManyMouseEvent>,
        SessionError,
    >)
        ensures
            r == if poll_response == -1 {
                Err::<Option<ManyMouseEvent>, SessionError>(SessionError::Poll)
            } else if poll_response == 0 {
                Ok::<Option<ManyMouseEvent>, SessionError>(None)
            } else {
                Ok::<Option<ManyMouseEvent>, SessionError>(Some(event))
            },
    {
        if poll_response == -1 {
            return Err(SessionError::Poll);
        }
        if poll_response == 0 {
            return Ok(None);
        }
        Ok(Some(event))
    }
}

/// What a raw event of a known kind says.
pub open spec fn event_data_of(event: ManyMouseEvent) -> MischiefEventData {
    if event.type_ == MANYMOUSE_EVENT_ABSMOTION {
        MischiefEventData::AbsMotion
    } else if event.type_ == MANYMOUSE_EVENT_RELMOTION {
        MischiefEventData::RelMotion {
            x: if event.item == 0 {
                event.value
            } else {
                0
            },
            y: if event.item == 0 {
                0
            } else {
                event.value
            },
        }
    } else if event.type_ == MANYMOUSE_EVENT_BUTTON {
        MischiefEventData::Button { button: event.item, pressed: event.value == 1 }
    } else if event.type_ == MANYMOUSE_EVENT_SCROLL {
        MischiefEventData::Scroll
    } else {
        MischiefEventData::Disconnect
    }
}

/// Decodes a raw event. A movement is along x when its item is 0, along y
/// otherwise; a button is pressed when its value is 1.
pub fn parse_event(event: ManyMouseEvent) -> (parsed: MischiefEvent)
    requires
        event.type_ <= MANYMOUSE_EVENT_DISCONNECT,
    ensures
        parsed.device == event.device,
        parsed.event_data == event_data_of(event),
{
    let event_data = if event.type_ == MANYMOUSE_EVENT_ABSMOTION {
        MischiefEventData::AbsMotion
    } else if event.type_ == MANYMOUSE_EVENT_RELMOTION {
        let x: bool = event.item == 0;
        MischiefEventData::RelMotion {
            x: if x {
                event.value
            } else {
                0
            },
            y: if !x {
                event.value
            } else {
                0
            },
        }
    } else if event.type_ == MANYMOUSE_EVENT_BUTTON {
        MischiefEventData::Button { button: event.item, pressed: event.value == 1 }
    } else if event.type_ == MANYMOUSE_EVENT_SCROLL {
        MischiefEventData::Scroll
    } else {
        MischiefEventData::Disconnect
    };
    MischiefEvent { device: event.device, event_data }
}

} // verus!
