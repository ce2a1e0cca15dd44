//! One registered accessory: the local stand-in for a remote device.

use vstd::prelude::*;
use crate::node_fetch::{FetchMethod, FetchRequest};
use crate::spotify_api::{
    player_request, volume_url, ApiError, SpotifyApi, SpotifyPlayback, DEFAULT_VOLUME,
};
use crate::volume_fader::{cancelled, started, FadeStart, VolumeFader};

verus! {

/// How an accessory presents itself to the host.
#[derive(Clone, Copy, Debug, PartialEq, Eq, Structural)]
pub enum ServiceType {
    /// A light: power is "On", volume is "Brightness".
    Light,
    /// A speaker: power is the inverse of "Mute", volume is "Volume".
    Speaker,
}

impl ServiceType {
    /// The name of the host characteristic that stands for power.
    pub open spec fn power_name(self) -> Seq<char> {
        match self {
            ServiceType::Light => "On"@,
            ServiceType::Speaker => "Mute"@,
        }
    }

    /// The name of the host characteristic that stands for the volume.
    pub open spec fn volume_name(self) -> Seq<char> {
        match self {
            ServiceType::Light => "Brightness"@,
            ServiceType::Speaker => "Volume"@,
        }
    }

    /// Whether the device is to play when the power characteristic is set to
    /// `value`. A light plays while it is on. A speaker plays while it is not muted.
    pub open spec fn plays_when(self, value: bool) -> bool {
        match self {
            ServiceType::Light => value,
            ServiceType::Speaker => !value,
        }
    }
}

/// The host characteristics that an accessory is wired to.
#[derive(Debug)]
pub struct Characteristics {
    /// Characteristic whose get and set handlers read and switch playback
    pub power: &'static str,
    /// Characteristic whose get and set handlers read and set the volume
    pub volume: &'static str,
    /// Value of the "Name" characteristic
    pub name: String,
}

/// What the host does when the power characteristic of an accessory is set.
#[derive(Clone, Copy, Debug, PartialEq, Eq, Structural)]
pub enum PowerChange {
    /// Start playback on the device, with the fade-in that `fade` describes.
    Play { fade: FadeStart },
    /// Pause the device; where `clear_timer`, a fade was running: clear its timer.
    Pause { clear_timer: bool },
}

/// The local state of one accessory. `H` is the host's handle for the
/// accessory object, which this library carries and never looks into.
#[derive(Debug)]
pub struct SpotifyAccessory<H> {
    /// ID of device to be controlled
    pub device_id: String,
    /// Accessory display name
    pub name: String,
    /// Accessory as the host knows it
    pub accessory: H,
    /// Presentation towards the host
    pub service_type: ServiceType,
}

impl<H> SpotifyAccessory<H> {
    pub fn new(name: String, device_id: String, service_type: ServiceType, accessory: H) -> (created: Self)
        ensures
            created.name == name,
            created.device_id == device_id,
            created.service_type == service_type,
            created.accessory == accessory,
    {
        SpotifyAccessory { device_id, name, accessory, service_type }
    }

    /// Return the device ID.
    pub fn get_device_id(&self) -> (id: &str)
        ensures
            id@ == self.device_id@,
    {
        self.device_id.as_str()
    }

    /// The characteristics to wire: which stands for power and which for the
    /// volume depends on the service type; the name is the display name.
    pub fn apply_characteristics(&self) -> (wiring: Characteristics)
        ensures
            wiring.power@ == self.service_type.power_name(),
            wiring.volume@ == self.service_type.volume_name(),
            wiring.name@ == self.name@,
    {
        match self.service_type {
            ServiceType::Light => Characteristics { power: "On", volume: "Brightness", name: self.name.clone() },
            ServiceType::Speaker => Characteristics { power: "Mute", volume: "Volume", name: self.name.clone() },
        }
    }

    /// The characteristic that the host reads at the end of each tick, so that a
    /// change of playback made elsewhere shows without the host asking by itself.
    pub fn check_on(&self) -> (characteristic: &'static str)
        ensures
            characteristic@ == "On"@,
    {
        "On"
    }

    /// What the power characteristic reads, from the playback state: whether this
    /// device is playing, and "not playing" where the state could not be had.
    pub fn get_on(&self, response: &Result<SpotifyPlayback, ApiError>) -> (on: bool)
        ensures
            on == match response {
                Ok(playback) => playback.is_playing && playback.device.id@ == self.device_id@,
                Err(_) => false,
            },
    {
        SpotifyApi::playing_from(response, self.device_id.as_str())
    }

    /// The power characteristic is set to `value`. Where that means to play, a fade
    /// of `fade_seconds` starts for the device (none where that is zero). Where it
    /// means to pause, a fade that runs for the device is cancelled.
    pub fn set_on(&self, value: bool, fade_seconds: u32, fader: &mut VolumeFader) -> (change: PowerChange)
        ensures
            self.service_type.plays_when(value) ==> (final(fader)@, change) == (
                started(old(fader)@, self.device_id@, fade_seconds).0,
                PowerChange::Play { fade: started(old(fader)@, self.device_id@, fade_seconds).1 },
            ),
            !self.service_type.plays_when(value) ==> (final(fader)@, change) == (
                cancelled(old(fader)@, self.device_id@).0,
                PowerChange::Pause { clear_timer: cancelled(old(fader)@, self.device_id@).1 },
            ),
    {
        let play = match self.service_type {
            ServiceType::Light => value,
            ServiceType::Speaker => !value,
        };
        if play {
            let fade = fader.start(self.device_id.as_str(), fade_seconds);
            PowerChange::Play { fade }
        } else {
            let clear_timer = fader.cancel(self.device_id.as_str());
            PowerChange::Pause { clear_timer }
        }
    }

    /// What the volume characteristic reads, from the playback state: the volume
    /// of the active device, and `DEFAULT_VOLUME` where the state could not be had.
    pub fn get_volume(&self, response: &Result<SpotifyPlayback, ApiError>) -> (volume: u32)
        ensures
            volume == match response {
                Ok(playback) => playback.device.volume_percent,
                Err(_) => DEFAULT_VOLUME,
            },
    {
        SpotifyApi::volume_from(response)
    }

    /// The volume characteristic is set: the request that sets the volume of this
    /// device, made with an access token that the credential cache handed out.
    pub fn set_volume(&self, volume: u32, access_token: &str) -> (request: FetchRequest)
        ensures
            request@ == player_request(
                FetchMethod::Put,
                volume_url(self.device_id@, volume),
                access_token@,
                true,
            ),
            request@.headers_distinct(),
    {
        SpotifyApi::set_volume(access_token, self.device_id.as_str(), volume)
    }

    /// Return the host's accessory.
    pub fn get_accessory(&self) -> (accessory: &H)
        ensures
            *accessory == self.accessory,
    {
        &self.accessory
    }
}

/// The device ids of a list of accessories, in order.
pub open spec fn accessory_ids<H>(accessories: Seq<SpotifyAccessory<H>>) -> Seq<Seq<char>> {
    accessories.map_values(|a: SpotifyAccessory<H>| a.device_id@)
}

} // verus!
