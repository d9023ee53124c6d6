//! The typed records the client returns from remote queries.

use vstd::prelude::*;
use vstd::string::StringSliceAdditionalSpecFns;
use crate::strutil::bytes_eq_str;

verus! {

/// The opaque identifier naming one managed item.
///
/// The remote service keys every per-item operation by this value; it is
/// compared by exact string equality and joined with `|` in batch forms.
#[derive(Debug, Clone, Hash)]
pub struct Hash {
    pub hash: String,
}

impl View for Hash {
    type V = Seq<char>;

    open spec fn view(&self) -> Seq<char> {
        self.hash@
    }
}

impl Hash {
    /// Gives the identifier back as the plain string it wraps.
    pub fn inner(self) -> (r: String)
        ensures
            r@ == self@,
    {
        self.hash
    }

    /// Reads the identifier without giving it up.
    pub fn as_str(&self) -> (r: &str)
        ensures
            r@ == self@,
    {
        self.hash.as_str()
    }
}

impl From<String> for Hash {
    fn from(f: String) -> (r: Self) {
        Hash { hash: f }
    }
}

impl vstd::std_specs::convert::FromSpecImpl<String> for Hash {
    open spec fn obeys_from_spec() -> bool {
        true
    }

    open spec fn from_spec(f: String) -> Self {
        Hash { hash: f }
    }
}

impl Default for Hash {
    fn default() -> (r: Self)
        ensures
            r@ == Seq::<char>::empty(),
    {
        Hash { hash: String::new() }
    }
}

/// The named status of one announce endpoint.
#[derive(Debug, Clone, Copy, PartialEq, Eq, Structural)]
pub enum TrackerStatus {
    TrackerDisabled,
    NotContacted,
    Working,
    Updating,
    NotWorking,
    UnknownResponse,
}

/// The fixed mapping from the wire's numeric status codes to named statuses:
/// codes 0 to 4 each have their own variant, and every other code falls into
/// [`TrackerStatus::UnknownResponse`], never into an error.
pub open spec fn spec_tracker_status_of(code: int) -> TrackerStatus {
    if code == 0 {
        TrackerStatus::TrackerDisabled
    } else if code == 1 {
        TrackerStatus::NotContacted
    } else if code == 2 {
        TrackerStatus::Working
    } else if code == 3 {
        TrackerStatus::Updating
    } else if code == 4 {
        TrackerStatus::NotWorking
    } else {
        TrackerStatus::UnknownResponse
    }
}

impl TrackerStatus {
    /// Maps a wire status code to its named status.
    pub fn from_code(code: i64) -> (r: TrackerStatus)
        ensures
            r == spec_tracker_status_of(code as int),
    {
        if code == 0 {
            TrackerStatus::TrackerDisabled
        } else if code == 1 {
            TrackerStatus::NotContacted
        } else if code == 2 {
            TrackerStatus::Working
        } else if code == 3 {
            TrackerStatus::Updating
        } else if code == 4 {
            TrackerStatus::NotWorking
        } else {
            TrackerStatus::UnknownResponse
        }
    }
}

/// The specification-level value of a [`Tracker`].
pub struct TrackerRep {
    pub url: Seq<char>,
    pub status: int,
    pub num_peers: int,
    pub msg: Seq<char>,
}

/// The reported state of one announce endpoint of one item.
#[derive(Debug, Clone)]
pub struct Tracker {
    pub url: String,
    pub status: i64,
    pub num_peers: i64,
    pub msg: String,
}

impl View for Tracker {
    type V = TrackerRep;

    open spec fn view(&self) -> TrackerRep {
        TrackerRep {
            url: self.url@,
            status: self.status as int,
            num_peers: self.num_peers as int,
            msg: self.msg@,
        }
    }
}

impl Tracker {
    /// Builds a tracker record from its plain parts.
    pub fn new(url: String, status: i64, num_peers: i64, msg: String) -> (r: Tracker)
        ensures
            r@.url == url@,
            r@.status == status as int,
            r@.num_peers == num_peers as int,
            r@.msg == msg@,
    {
        Tracker { url, status, num_peers, msg }
    }

    pub fn url(&self) -> (r: &String)
        ensures
            r@ == self@.url,
    {
        &self.url
    }

    /// The raw numeric status code the wire carried.
    pub fn status_code(&self) -> (r: i64)
        ensures
            r as int == self@.status,
    {
        self.status
    }

    /// The named status the raw code stands for.
    pub fn status(&self) -> (r: TrackerStatus)
        ensures
            r == spec_tracker_status_of(self@.status),
    {
        TrackerStatus::from_code(self.status)
    }

    pub fn num_peers(&self) -> (r: i64)
        ensures
            r as int == self@.num_peers,
    {
        self.num_peers
    }

    pub fn msg(&self) -> (r: &String)
        ensures
            r@ == self@.msg,
    {
        &self.msg
    }
}

/// The lifecycle state of one managed item, as the remote service names it.
#[derive(Debug, Clone, Copy, PartialEq, Eq, Structural)]
pub enum State {
    Error,
    MissingFiles,
    Uploading,
    PausedUP,
    QueuedUP,
    StalledUP,
    CheckingUP,
    ForcedUP,
    Allocating,
    Downloading,
    MetaDL,
    PausedDL,
    QueuedDL,
    StalledDL,
    CheckingDL,
    ForceDL,
    CheckingResumeData,
    Moving,
    Unknown,
}

/// The state a wire token names, if the remote service defines the token.
/// Decoding accepts exactly these tokens and fails on any other.
pub open spec fn spec_state_of(w: Seq<u8>) -> Option<State> {
    if w == "error".spec_bytes() {
        Some(State::Error)
    } else if w == "missingFiles".spec_bytes() {
        Some(State::MissingFiles)
    } else if w == "uploading".spec_bytes() {
        Some(State::Uploading)
    } else if w == "pausedUP".spec_bytes() {
        Some(State::PausedUP)
    } else if w == "queuedUP".spec_bytes() {
        Some(State::QueuedUP)
    } else if w == "stalledUP".spec_bytes() {
        Some(State::StalledUP)
    } else if w == "checkingUP".spec_bytes() {
        Some(State::CheckingUP)
    } else if w == "forcedUP".spec_bytes() {
        Some(State::ForcedUP)
    } else if w == "allocating".spec_bytes() {
        Some(State::Allocating)
    } else if w == "downloading".spec_bytes() {
        Some(State::Downloading)
    } else if w == "metaDL".spec_bytes() {
        Some(State::MetaDL)
    } else if w == "pausedDL".spec_bytes() {
        Some(State::PausedDL)
    } else if w == "queuedDL".spec_bytes() {
        Some(State::QueuedDL)
    } else if w == "stalledDL".spec_bytes() {
        Some(State::StalledDL)
    } else if w == "checkingDL".spec_bytes() {
        Some(State::CheckingDL)
    } else if w == "forcedDL".spec_bytes() {
        Some(State::ForceDL)
    } else if w == "checkingResumeData".spec_bytes() {
        Some(State::CheckingResumeData)
    } else if w == "moving".spec_bytes() {
        Some(State::Moving)
    } else if w == "unknown".spec_bytes() {
        Some(State::Unknown)
    } else {
        None
    }
}

impl State {
    /// Maps a wire state token to its state, if the token is defined.
    pub fn from_token(w: &Vec<u8>) -> (r: Option<State>)
        ensures
            r == spec_state_of(w@),
    {
        if bytes_eq_str(w, "error") {
            Some(State::Error)
        } else if bytes_eq_str(w, "missingFiles") {
            Some(State::MissingFiles)
        } else if bytes_eq_str(w, "uploading") {
            Some(State::Uploading)
        } else if bytes_eq_str(w, "pausedUP") {
            Some(State::PausedUP)
        } else if bytes_eq_str(w, "queuedUP") {
            Some(State::QueuedUP)
        } else if bytes_eq_str(w, "stalledUP") {
            Some(State::StalledUP)
        } else if bytes_eq_str(w, "checkingUP") {
            Some(State::CheckingUP)
        } else if bytes_eq_str(w, "forcedUP") {
            Some(State::ForcedUP)
        } else if bytes_eq_str(w, "allocating") {
            Some(State::Allocating)
        } else if bytes_eq_str(w, "downloading") {
            Some(State::Downloading)
        } else if bytes_eq_str(w, "metaDL") {
            Some(State::MetaDL)
        } else if bytes_eq_str(w, "pausedDL") {
            Some(State::PausedDL)
        } else if bytes_eq_str(w, "queuedDL") {
            Some(State::QueuedDL)
        } else if bytes_eq_str(w, "stalledDL") {
            Some(State::StalledDL)
        } else if bytes_eq_str(w, "checkingDL") {
            Some(State::CheckingDL)
        } else if bytes_eq_str(w, "forcedDL") {
            Some(State::ForceDL)
        } else if bytes_eq_str(w, "checkingResumeData") {
            Some(State::CheckingResumeData)
        } else if bytes_eq_str(w, "moving") {
            Some(State::Moving)
        } else if bytes_eq_str(w, "unknown") {
            Some(State::Unknown)
        } else {
            None
        }
    }
}

/// The connection state of the client itself.
#[derive(Debug, Clone, Copy, PartialEq, Eq, Structural)]
pub enum ConnectionStatus {
    Connected,
    Firewalled,
    Disconnected,
}

/// The connection status a wire token names, if the token is defined.
pub open spec fn spec_connection_status_of(w: Seq<u8>) -> Option<ConnectionStatus> {
    if w == "connected".spec_bytes() {
        Some(ConnectionStatus::Connected)
    } else if w == "firewalled".spec_bytes() {
        Some(ConnectionStatus::Firewalled)
    } else if w == "disconnected".spec_bytes() {
        Some(ConnectionStatus::Disconnected)
    } else {
        None
    }
}

impl ConnectionStatus {
    /// Maps a wire connection-status token to its value, if defined.
    pub fn from_token(w: &Vec<u8>) -> (r: Option<ConnectionStatus>)
        ensures
            r == spec_connection_status_of(w@),
    {
        if bytes_eq_str(w, "connected") {
            Some(ConnectionStatus::Connected)
        } else if bytes_eq_str(w, "firewalled") {
            Some(ConnectionStatus::Firewalled)
        } else if bytes_eq_str(w, "disconnected") {
            Some(ConnectionStatus::Disconnected)
        } else {
            None
        }
    }
}

/// The specification-level value of a [`Torrent`].
pub struct TorrentRep {
    pub added_on: int,
    pub amount_left: int,
    pub category: Seq<char>,
    pub dlspeed: int,
    pub upspeed: int,
    pub f_l_piece_prio: Option<bool>,
    pub hash: Seq<char>,
    pub name: Seq<char>,
    pub size: int,
    pub state: State,
    pub tags: Seq<char>,
}

/// A snapshot of one managed item, as one list entry reports it.
///
/// The record keeps the fields the client reads; every fetch returns a
/// complete new snapshot.
#[derive(Debug, Clone)]
pub struct Torrent {
    pub added_on: u32,
    pub amount_left: u64,
    pub category: String,
    pub dlspeed: i64,
    pub upspeed: i64,
    pub f_l_piece_prio: Option<bool>,
    pub hash: Hash,
    pub name: String,
    pub size: i64,
    pub state: State,
    pub tags: String,
}

impl View for Torrent {
    type V = TorrentRep;

    open spec fn view(&self) -> TorrentRep {
        TorrentRep {
            added_on: self.added_on as int,
            amount_left: self.amount_left as int,
            category: self.category@,
            dlspeed: self.dlspeed as int,
            upspeed: self.upspeed as int,
            f_l_piece_prio: self.f_l_piece_prio,
            hash: self.hash@,
            name: self.name@,
            size: self.size as int,
            state: self.state,
            tags: self.tags@,
        }
    }
}

impl Torrent {
    pub fn added_on(&self) -> (r: u32)
        ensures
            r as int == self@.added_on,
    {
        self.added_on
    }

    pub fn amount_left(&self) -> (r: u64)
        ensures
            r as int == self@.amount_left,
    {
        self.amount_left
    }

    pub fn category(&self) -> (r: &String)
        ensures
            r@ == self@.category,
    {
        &self.category
    }

    pub fn dlspeed(&self) -> (r: i64)
        ensures
            r as int == self@.dlspeed,
    {
        self.dlspeed
    }

    pub fn upspeed(&self) -> (r: i64)
        ensures
            r as int == self@.upspeed,
    {
        self.upspeed
    }

    pub fn f_l_piece_prio(&self) -> (r: Option<bool>)
        ensures
            r == self@.f_l_piece_prio,
    {
        self.f_l_piece_prio
    }

    pub fn hash(&self) -> (r: &Hash)
        ensures
            r@ == self@.hash,
    {
        &self.hash
    }

    pub fn name(&self) -> (r: &String)
        ensures
            r@ == self@.name,
    {
        &self.name
    }

    pub fn size(&self) -> (r: i64)
        ensures
            r as int == self@.size,
    {
        self.size
    }

    pub fn state(&self) -> (r: State)
        ensures
            r == self@.state,
    {
        self.state
    }

    pub fn tags(&self) -> (r: &String)
        ensures
            r@ == self@.tags,
    {
        &self.tags
    }
}

/// The specification-level value of a [`TransferInfo`].
pub struct TransferInfoRep {
    pub dl_info_speed: int,
    pub dl_info_data: int,
    pub up_info_speed: int,
    pub up_info_data: int,
    pub dl_rate_limit: int,
    pub up_rate_limit: int,
    pub dht_nodes: int,
    pub connection_status: ConnectionStatus,
}

/// Global transfer statistics of the client.
#[derive(Debug, Clone)]
pub struct TransferInfo {
    pub dl_info_speed: u64,
    pub dl_info_data: u64,
    pub up_info_speed: u64,
    pub up_info_data: u64,
    pub dl_rate_limit: u64,
    pub up_rate_limit: u64,
    pub dht_nodes: u64,
    pub connection_status: ConnectionStatus,
}

impl View for TransferInfo {
    type V = TransferInfoRep;

    open spec fn view(&self) -> TransferInfoRep {
        TransferInfoRep {
            dl_info_speed: self.dl_info_speed as int,
            dl_info_data: self.dl_info_data as int,
            up_info_speed: self.up_info_speed as int,
            up_info_data: self.up_info_data as int,
            dl_rate_limit: self.dl_rate_limit as int,
            up_rate_limit: self.up_rate_limit as int,
            dht_nodes: self.dht_nodes as int,
            connection_status: self.connection_status,
        }
    }
}

impl TransferInfo {
    pub fn dl_info_speed(&self) -> (r: u64)
        ensures
            r as int == self@.dl_info_speed,
    {
        self.dl_info_speed
    }

    pub fn dl_info_data(&self) -> (r: u64)
        ensures
            r as int == self@.dl_info_data,
    {
        self.dl_info_data
    }

    pub fn up_info_speed(&self) -> (r: u64)
        ensures
            r as int == self@.up_info_speed,
    {
        self.up_info_speed
    }

    pub fn up_info_data(&self) -> (r: u64)
        ensures
            r as int == self@.up_info_data,
    {
        self.up_info_data
    }

    pub fn dl_rate_limit(&self) -> (r: u64)
        ensures
            r as int == self@.dl_rate_limit,
    {
        self.dl_rate_limit
    }

    pub fn up_rate_limit(&self) -> (r: u64)
        ensures
            r as int == self@.up_rate_limit,
    {
        self.up_rate_limit
    }

    pub fn dht_nodes(&self) -> (r: u64)
        ensures
            r as int == self@.dht_nodes,
    {
        self.dht_nodes
    }

    pub fn connection_status(&self) -> (r: ConnectionStatus)
        ensures
            r == self@.connection_status,
    {
        self.connection_status
    }
}

/// The specification-level value of a [`BuildInfo`].
pub struct BuildInfoRep {
    pub qt: Seq<char>,
    pub libtorrent: Seq<char>,
    pub boost: Seq<char>,
    pub openssl: Seq<char>,
    pub bitness: Seq<char>,
}

/// The component versions the remote service was built with.
#[derive(Debug, Clone)]
pub struct BuildInfo {
    pub qt: String,
    pub libtorrent: String,
    pub boost: String,
    pub openssl: String,
    pub bitness: String,
}

impl View for BuildInfo {
    type V = BuildInfoRep;

    open spec fn view(&self) -> BuildInfoRep {
        BuildInfoRep {
            qt: self.qt@,
            libtorrent: self.libtorrent@,
            boost: self.boost@,
            openssl: self.openssl@,
            bitness: self.bitness@,
        }
    }
}

impl BuildInfo {
    pub fn qt(&self) -> (r: &String)
        ensures
            r@ == self@.qt,
    {
        &self.qt
    }

    pub fn libtorrent(&self) -> (r: &String)
        ensures
            r@ == self@.libtorrent,
    {
        &self.libtorrent
    }

    pub fn boost(&self) -> (r: &String)
        ensures
            r@ == self@.boost,
    {
        &self.boost
    }

    pub fn openssl(&self) -> (r: &String)
        ensures
            r@ == self@.openssl,
    {
        &self.openssl
    }

    pub fn bitness(&self) -> (r: &String)
        ensures
            r@ == self@.bitness,
    {
        &self.bitness
    }
}

/// The specification-level value of a [`Log`].
pub struct LogRep {
    pub id: int,
    pub message: Seq<char>,
    pub timestamp: int,
    pub kind: int,
}

/// One entry of the remote service's main log.
#[derive(Debug, Clone)]
pub struct Log {
    pub id: u64,
    pub message: String,
    pub timestamp: u64,
    pub kind: u64,
}

impl View for Log {
    type V = LogRep;

    open spec fn view(&self) -> LogRep {
        LogRep {
            id: self.id as int,
            message: self.message@,
            timestamp: self.timestamp as int,
            kind: self.kind as int,
        }
    }
}

impl Log {
    pub fn id(&self) -> (r: u64)
        ensures
            r as int == self@.id,
    {
        self.id
    }

    pub fn message(&self) -> (r: &String)
        ensures
            r@ == self@.message,
    {
        &self.message
    }

    pub fn timestamp(&self) -> (r: u64)
        ensures
            r as int == self@.timestamp,
    {
        self.timestamp
    }

    /// The numeric severity class of the entry.
    pub fn kind(&self) -> (r: u64)
        ensures
            r as int == self@.kind,
    {
        self.kind
    }
}

/// The specification-level value of a [`Categories`] entry.
pub struct CategoriesRep {
    pub name: Seq<char>,
    pub save_path: Seq<char>,
}

/// The save-path metadata of one category.
#[derive(Debug, Clone)]
pub struct Categories {
    pub name: String,
    pub save_path: String,
}

impl View for Categories {
    type V = CategoriesRep;

    open spec fn view(&self) -> CategoriesRep {
        CategoriesRep { name: self.name@, save_path: self.save_path@ }
    }
}

impl Categories {
    pub fn name(&self) -> (r: &String)
        ensures
            r@ == self@.name,
    {
        &self.name
    }

    pub fn save_path(&self) -> (r: &String)
        ensures
            r@ == self@.save_path,
    {
        &self.save_path
    }
}

/// Whether the alternate global speed limits are in force.
#[derive(Debug, Clone, Copy, PartialEq, Eq, Structural)]
pub enum AlternateLimits {
    Enabled,
    Disabled,
}

/// The client's preference set; no field of it is read by this client.
#[derive(Debug, Clone)]
pub struct Preferences {}

/// One peer of one managed item; no field of it is read by this client.
#[derive(Debug, Clone)]
pub struct Peer {}

/// The server-state block of a sync response; no field of it is read by
/// this client.
#[derive(Debug, Clone)]
pub struct ServerState {}

} // verus!
