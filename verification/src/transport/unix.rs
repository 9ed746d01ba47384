//! Decisions about a Unix domain socket endpoint.
//!
//! Access control comes from the directory holding the socket, which is created with
//! owner access only before the socket is bound inside it, so the endpoint is never
//! reachable by another account.

use vstd::prelude::*;
use vstd::string::*;
use vstd::utf8::*;

use crate::text::{
    a_number_reads_back_from_its_decimal, decimal, decimal_u64, decode_text, lossy_text,
    reads_as, replaced_text, same_words, words_stay,
};
use crate::transport::{EndpointAddress, EndpointError, EndpointFault, IoKind};

verus! {

/// Mode for the directory containing the socket: owner access only.
pub const DIR_MODE: u32 = 0o700;

/// A path made of a directory and a name in it.
pub open spec fn joined(dir: Seq<u8>, name: Seq<u8>) -> Seq<u8> {
    if dir.len() == 0 {
        name
    } else if dir.last() == 0x2f {
        dir + name
    } else {
        dir.push(0x2f) + name
    }
}

/// Appends a name to a directory.
fn join(dir: &[u8], name: &[u8]) -> (path: Vec<u8>)
    ensures
        path@ == joined(dir@, name@),
{
    let mut path: Vec<u8> = vstd::slice::slice_to_vec(dir);
    if dir.len() > 0 && dir[dir.len() - 1] != 0x2f {
        path.push(0x2f);
    }
    path.extend_from_slice(name);
    assert(path@ =~= joined(dir@, name@));
    path
}

/// Whether a variable of the environment has a value that is not empty.
pub open spec fn is_set(value: Option<&[u8]>) -> bool {
    value matches Some(v) && v@.len() > 0
}

/// The default path of the socket: in the private per-user directory the operating
/// system provides, or in one under the temporary directory that is named after the
/// user.
pub open spec fn default_path(
    runtime_dir: Option<&[u8]>,
    tmp_dir: Option<&[u8]>,
    uid: u32,
) -> Seq<u8> {
    let base = if is_set(runtime_dir) {
        joined(runtime_dir->0@, encode_utf8("mehoy"@))
    } else {
        let tmp = if is_set(tmp_dir) {
            tmp_dir->0@
        } else {
            encode_utf8("/tmp"@)
        };
        joined(tmp, encode_utf8("mehoy-"@ + decimal(uid as nat)))
    };
    joined(base, encode_utf8("mehoyd.sock"@))
}

/// The per-user default socket location, from the values of `XDG_RUNTIME_DIR` and
/// `TMPDIR` and the effective user.
pub fn default_address(runtime_dir: Option<&[u8]>, tmp_dir: Option<&[u8]>, uid: u32) -> (result:
    Result<EndpointAddress, EndpointError>)
    ensures
        ({
            let path = default_path(runtime_dir, tmp_dir, uid);
            match result {
                Ok(address) => valid_utf8(path) && address@ == decode_utf8(path),
                Err(error) => !valid_utf8(path) && error@ == (EndpointFault::NoDefaultLocation {
                    reason: "path "@ + replaced_text(path) + " is not valid UTF-8"@,
                }),
            }
        }),
{
    let use_runtime: bool = match runtime_dir {
        Some(dir) => dir.len() > 0,
        None => false,
    };
    let base: Vec<u8> = if use_runtime {
        match runtime_dir {
            Some(dir) => join(dir, "mehoy".as_bytes()),
            None => Vec::new(),
        }
    } else {
        let mut name = "mehoy-".to_owned();
        name.append(decimal_u64(uid as u64).as_str());
        match tmp_dir {
            Some(dir) => if dir.len() > 0 {
                join(dir, name.as_str().as_bytes())
            } else {
                join("/tmp".as_bytes(), name.as_str().as_bytes())
            },
            None => join("/tmp".as_bytes(), name.as_str().as_bytes()),
        }
    };
    let path = join(base.as_slice(), "mehoyd.sock".as_bytes());
    match decode_text(path.as_slice()) {
        Ok(text) => Ok(EndpointAddress::new(text.as_str())),
        Err(_) => {
            let mut reason = "path ".to_owned();
            reason.append(lossy_text(path.as_slice()).as_str());
            reason.append(" is not valid UTF-8");
            Err(EndpointError::NoDefaultLocation { reason })
        },
    }
}

/// The directory an endpoint is bound in: the parent of its path, which must have
/// one that is not empty.
pub fn endpoint_directory(address: &EndpointAddress, parent: Option<String>) -> (result: Result<
    String,
    EndpointError,
>)
    ensures
        match parent {
            Some(dir) => if dir@.len() > 0 {
                result == Ok::<String, EndpointError>(dir)
            } else {
                result matches Err(error) && error@ == no_parent(address@)
            },
            None => result matches Err(error) && error@ == no_parent(address@),
        },
{
    if let Some(dir) = parent {
        if !dir.as_str().is_empty() {
            return Ok(dir);
        }
    }
    let mut reason = "endpoint path ".to_owned();
    reason.append(address.as_str());
    reason.append(" has no parent directory");
    Err(EndpointError::NoDefaultLocation { reason })
}

pub open spec fn no_parent(address: Seq<char>) -> EndpointFault {
    EndpointFault::NoDefaultLocation {
        reason: "endpoint path "@ + address + " has no parent directory"@,
    }
}

/// What stands where the endpoint directory should be.
#[derive(Debug, Clone, PartialEq, Eq)]
pub enum DirectoryLook {
    /// Nothing.
    NotFound,
    /// It could not be looked at.
    Failed(String),
    /// Something: a symbolic link, a directory or anything else, with its owner and
    /// its mode.
    Found { is_symlink: bool, is_dir: bool, uid: u32, mode: u32 },
}

/// What to do about the endpoint directory.
#[derive(Debug, Clone, Copy, PartialEq, Eq, Structural)]
pub enum DirectoryStep {
    /// Create it with this mode, which applies from the start.
    Create { mode: u32 },
    /// Use it as it is.
    Use,
}

/// An octal digit.
pub open spec fn octal_digit(d: nat) -> char {
    (48 + d) as char
}

/// The permission bits of a mode in four octal digits.
pub open spec fn octal_mode(mode: nat) -> Seq<char> {
    seq![
        '0',
        octal_digit(mode / 64 % 8),
        octal_digit(mode / 8 % 8),
        octal_digit(mode % 8),
    ]
}

/// Whether a mode gives anyone but the owner any access.
pub open spec fn beyond_owner(mode: u32) -> bool {
    mode % 0o100 != 0
}

/// Why a directory is not private to the user, if it is not.
pub open spec fn insecurity(
    is_symlink: bool,
    is_dir: bool,
    uid: u32,
    mode: u32,
    user: u32,
) -> Option<Seq<char>> {
    if is_symlink {
        Some("path is a symbolic link"@)
    } else if !is_dir {
        Some("path is not a directory"@)
    } else if uid != user {
        Some(
            "owned by uid "@ + decimal(uid as nat) + ", expected uid "@ + decimal(user as nat),
        )
    } else if beyond_owner(mode) {
        Some("mode "@ + octal_mode(mode as nat) + " grants access beyond the owner"@)
    } else {
        None
    }
}

fn octal_char(d: u32) -> (c: char)
    requires
        d < 8,
    ensures
        c == octal_digit(d as nat),
{
    (48 + d as u8) as char
}

fn octal_text(mode: u32) -> (text: String)
    ensures
        text@ == octal_mode(mode as nat),
{
    let mut text = String::new();
    text.push('0');
    text.push(octal_char(mode / 64 % 8));
    text.push(octal_char(mode / 8 % 8));
    text.push(octal_char(mode % 8));
    assert(text@ =~= octal_mode(mode as nat));
    text
}

/// What is to be done about an endpoint directory, given what stands there.
pub open spec fn privacy(dir: Seq<char>, look: DirectoryLook, user: u32) -> Result<
    DirectoryStep,
    EndpointFault,
> {
    match look {
        DirectoryLook::NotFound => Ok(DirectoryStep::Create { mode: DIR_MODE }),
        DirectoryLook::Failed(reason) => Err(EndpointFault::Io(reason@)),
        DirectoryLook::Found { is_symlink, is_dir, uid, mode } => match insecurity(
            is_symlink,
            is_dir,
            uid,
            mode,
            user,
        ) {
            None => Ok(DirectoryStep::Use),
            Some(reason) => Err(EndpointFault::InsecureDirectory { path: dir, reason }),
        },
    }
}

/// Decides about the endpoint directory: created if absent, verified if present.
pub fn ensure_private_directory(dir: &str, look: DirectoryLook, user: u32) -> (result: Result<
    DirectoryStep,
    EndpointError,
>)
    ensures
        match (result, privacy(dir@, look, user)) {
            (Ok(step), Ok(s)) => step == s,
            (Err(error), Err(fault)) => error@ == fault,
            _ => false,
        },
{
    match look {
        DirectoryLook::NotFound => Ok(DirectoryStep::Create { mode: DIR_MODE }),
        DirectoryLook::Failed(reason) => Err(EndpointError::Io(reason)),
        DirectoryLook::Found { is_symlink, is_dir, uid, mode } => {
            let reason = if is_symlink {
                "path is a symbolic link".to_owned()
            } else if !is_dir {
                "path is not a directory".to_owned()
            } else if uid != user {
                let mut reason = "owned by uid ".to_owned();
                reason.append(decimal_u64(uid as u64).as_str());
                reason.append(", expected uid ");
                reason.append(decimal_u64(user as u64).as_str());
                reason
            } else if mode % 0o100 != 0 {
                let mut reason = "mode ".to_owned();
                reason.append(octal_text(mode).as_str());
                reason.append(" grants access beyond the owner");
                reason
            } else {
                return Ok(DirectoryStep::Use);
            };
            Err(EndpointError::InsecureDirectory { path: dir.to_owned(), reason })
        },
    }
}

/// What a connection attempt at the socket path found.
#[derive(Debug, PartialEq, Eq)]
pub enum SocketProbe {
    /// A daemon answered.
    Connected,
    /// There is nothing at the path.
    NotFound,
    /// Nobody listens. What stands at the path is a socket or not, with its owner,
    /// unless that could not be found out.
    Refused(Result<Occupant, String>),
    /// The attempt failed otherwise.
    Failed(String),
}

/// What occupies a socket path.
#[derive(Debug, Clone, Copy, PartialEq, Eq, Structural)]
pub struct Occupant {
    pub is_socket: bool,
    pub uid: u32,
}

/// What to do before binding.
#[derive(Debug, Clone, Copy, PartialEq, Eq, Structural)]
pub enum SocketStep {
    /// Bind.
    Bind,
    /// Remove the stale socket, then bind.
    RemoveStale,
}

/// What is to be done about a socket path, given what a connection attempt found.
pub open spec fn clearance(address: Seq<char>, probe: SocketProbe, user: u32) -> Result<
    SocketStep,
    EndpointFault,
> {
    match probe {
        SocketProbe::Connected => Err(EndpointFault::AlreadyRunning { address }),
        SocketProbe::NotFound => Ok(SocketStep::Bind),
        SocketProbe::Failed(reason) => Err(EndpointFault::Io(reason@)),
        SocketProbe::Refused(Err(reason)) => Err(EndpointFault::Io(reason@)),
        SocketProbe::Refused(Ok(occupant)) => if !occupant.is_socket {
            Err(
                EndpointFault::UnexpectedOccupant {
                    path: address,
                    reason: "existing file is not a socket"@,
                },
            )
        } else if occupant.uid != user {
            Err(
                EndpointFault::UnexpectedOccupant {
                    path: address,
                    reason: "socket is owned by uid "@ + decimal(occupant.uid as nat),
                },
            )
        } else {
            Ok(SocketStep::RemoveStale)
        },
    }
}

/// Existence is not liveness, but neither is it permission to delete: a daemon that
/// answers is never disturbed, and what stands at the path is removed exactly when
/// it is a socket of the user's own that nobody listens on.
pub proof fn only_a_dead_socket_of_ones_own_is_removed(
    address: Seq<char>,
    probe: SocketProbe,
    user: u32,
)
    ensures
        clearance(address, probe, user) == Ok::<SocketStep, EndpointFault>(SocketStep::RemoveStale)
            <==> (probe matches SocketProbe::Refused(Ok(occupant)) && occupant.is_socket
            && occupant.uid == user),
        clearance(address, probe, user) == Ok::<SocketStep, EndpointFault>(SocketStep::Bind)
            <==> probe is NotFound,
        probe is Connected ==> clearance(address, probe, user) == Err::<SocketStep, EndpointFault>(
            EndpointFault::AlreadyRunning { address },
        ),
{
}

/// Decides about anything already at the socket path, which is probed by connecting.
pub fn clear_stale_socket(address: &EndpointAddress, probe: SocketProbe, user: u32) -> (result:
    Result<SocketStep, EndpointError>)
    ensures
        match (result, clearance(address@, probe, user)) {
            (Ok(step), Ok(s)) => step == s,
            (Err(error), Err(fault)) => error@ == fault,
            _ => false,
        },
{
    match probe {
        SocketProbe::Connected => Err(EndpointError::AlreadyRunning { address: address.copy() }),
        SocketProbe::NotFound => Ok(SocketStep::Bind),
        SocketProbe::Failed(reason) => Err(EndpointError::Io(reason)),
        SocketProbe::Refused(Err(reason)) => Err(EndpointError::Io(reason)),
        SocketProbe::Refused(Ok(occupant)) => {
            if !occupant.is_socket {
                return Err(
                    EndpointError::UnexpectedOccupant {
                        path: address.to_string(),
                        reason: "existing file is not a socket".to_owned(),
                    },
                );
            }
            if occupant.uid != user {
                let mut reason = "socket is owned by uid ".to_owned();
                reason.append(decimal_u64(occupant.uid as u64).as_str());
                return Err(
                    EndpointError::UnexpectedOccupant { path: address.to_string(), reason },
                );
            }
            Ok(SocketStep::RemoveStale)
        },
    }
}

/// Why binding failed. Another daemon that won the race is one that is running.
pub fn bind_failed(address: &EndpointAddress, kind: IoKind, message: String) -> (error:
    EndpointError)
    ensures
        error@ == bind_fault(address@, kind, message@),
        kind is AddrInUse ==> error@ == (EndpointFault::AlreadyRunning { address: address@ }),
        !(kind is AddrInUse) ==> error@ == EndpointFault::Io(message@),
{
    if kind == IoKind::AddrInUse {
        EndpointError::AlreadyRunning { address: address.copy() }
    } else {
        EndpointError::Io(message)
    }
}

/// Why connecting failed.
pub fn connect_failed(address: &EndpointAddress, kind: IoKind, message: String) -> (error:
    EndpointError)
    ensures
        error@ == if kind == IoKind::NotFound || kind == IoKind::ConnectionRefused {
            EndpointFault::NotRunning { address: address@ }
        } else {
            EndpointFault::Io(message@)
        },
{
    if kind == IoKind::NotFound || kind == IoKind::ConnectionRefused {
        EndpointError::NotRunning { address: address.copy() }
    } else {
        EndpointError::Io(message)
    }
}

/// The permission bits below the owner's are what decides: a directory is used only
/// if it is a real directory of the user's own that nobody else may enter, and only
/// then.
pub proof fn only_a_private_directory_is_used(
    is_symlink: bool,
    is_dir: bool,
    uid: u32,
    mode: u32,
    user: u32,
)
    ensures
        insecurity(is_symlink, is_dir, uid, mode, user) is None <==> !is_symlink && is_dir && uid
            == user && mode & 0o077 == 0,
{
    assert(mode & 0o077 == mode % 0o100) by (bit_vector);
}

// ---------------------------------------------------------------------------
// Claiming an endpoint.

/// What was found and done while an endpoint was claimed, in order. Each thing is
/// looked at only if everything before it went well.
pub struct Claiming {
    /// The directory of the endpoint's path.
    pub parent: Option<Seq<char>>,
    /// What stood where the directory should be.
    pub look: DirectoryLook,
    /// What came of making the directory, if it was to be made.
    pub made: Result<(), Seq<char>>,
    /// What a connection attempt at the path found.
    pub probe: SocketProbe,
    /// What came of removing a stale socket, if there was one.
    pub removed: Result<(), Seq<char>>,
    /// What came of binding.
    pub bound: Result<(), (IoKind, Seq<char>)>,
}

/// Why binding failed.
pub open spec fn bind_fault(address: Seq<char>, kind: IoKind, message: Seq<char>) -> EndpointFault {
    if kind == IoKind::AddrInUse {
        EndpointFault::AlreadyRunning { address }
    } else {
        EndpointFault::Io(message)
    }
}

/// The first thing that keeps an endpoint from being claimed.
pub open spec fn claim_fault(address: Seq<char>, c: Claiming, user: u32) -> Option<EndpointFault> {
    if c.parent is None || c.parent->0.len() == 0 {
        Some(no_parent(address))
    } else {
        match privacy(c.parent->0, c.look, user) {
            Err(fault) => Some(fault),
            Ok(step) => if step is Create && c.made is Err {
                Some(EndpointFault::Io(c.made->Err_0))
            } else {
                match clearance(address, c.probe, user) {
                    Err(fault) => Some(fault),
                    Ok(step) => if step == SocketStep::RemoveStale && c.removed is Err {
                        Some(EndpointFault::Io(c.removed->Err_0))
                    } else {
                        match c.bound {
                            Err((kind, message)) => Some(bind_fault(address, kind, message)),
                            Ok(()) => None,
                        }
                    },
                }
            },
        }
    }
}

/// An endpoint is claimed only in a directory that nobody else may enter, and only
/// at a path where there was nothing or a dead socket of the user's own.
pub proof fn a_claimed_endpoint_is_private(address: Seq<char>, c: Claiming, user: u32)
    requires
        claim_fault(address, c, user) is None,
    ensures
        match c.look {
            DirectoryLook::NotFound => c.made is Ok,
            DirectoryLook::Failed(_) => false,
            DirectoryLook::Found { is_symlink, is_dir, uid, mode } => !is_symlink && is_dir && uid
                == user && mode & 0o077 == 0,
        },
        match c.probe {
            SocketProbe::NotFound => true,
            SocketProbe::Refused(Ok(occupant)) => occupant.is_socket && occupant.uid == user
                && c.removed is Ok,
            _ => false,
        },
        c.bound is Ok,
{
    if let DirectoryLook::Found { is_symlink, is_dir, uid, mode } = c.look {
        only_a_private_directory_is_used(is_symlink, is_dir, uid, mode, user);
    }
}

/// An endpoint that is listened on.
#[derive(Debug, PartialEq, Eq)]
pub struct Endpoint {
    address: EndpointAddress,
}

impl View for Endpoint {
    type V = Seq<char>;

    closed spec fn view(&self) -> Seq<char> {
        self.address@
    }
}

/// A claim whose directory is to be looked at.
pub struct Claim {
    address: EndpointAddress,
    dir: String,
}

/// A claim in a private directory, whose path is to be probed.
pub struct PrivateClaim {
    address: EndpointAddress,
    dir: DirectoryStep,
}

/// A claim of a path that is free once a stale socket is removed.
pub struct FreeClaim {
    address: EndpointAddress,
    socket: SocketStep,
}

impl Claim {
    pub closed spec fn address_view(&self) -> Seq<char> {
        self.address@
    }

    pub closed spec fn dir_view(&self) -> Seq<char> {
        self.dir@
    }
}

impl PrivateClaim {
    pub closed spec fn address_view(&self) -> Seq<char> {
        self.address@
    }

    pub closed spec fn dir_view(&self) -> DirectoryStep {
        self.dir
    }
}

impl FreeClaim {
    pub closed spec fn address_view(&self) -> Seq<char> {
        self.address@
    }

    pub closed spec fn socket_view(&self) -> SocketStep {
        self.socket
    }
}

impl Endpoint {
    /// Begins to claim an endpoint, given the directory of its path.
    pub fn bind(address: &EndpointAddress, parent: Option<String>) -> (result: Result<
        Claim,
        EndpointError,
    >)
        ensures
            match parent {
                Some(dir) => if dir@.len() > 0 {
                    result matches Ok(claim) && claim.address_view() == address@
                        && claim.dir_view() == dir@
                } else {
                    result matches Err(error) && error@ == no_parent(address@)
                },
                None => result matches Err(error) && error@ == no_parent(address@),
            },
    {
        match endpoint_directory(address, parent) {
            Ok(dir) => Ok(Claim { address: address.copy(), dir }),
            Err(error) => Err(error),
        }
    }

    /// Where the endpoint is.
    pub fn address(&self) -> (address: &EndpointAddress)
        ensures
            address@ == self@,
    {
        &self.address
    }
}

impl Claim {
    /// The directory to look at.
    pub fn directory(&self) -> (dir: &str)
        ensures
            dir@ == self.dir_view(),
    {
        self.dir.as_str()
    }

    /// Goes on with what stands where the directory should be. The step of the next
    /// claim says whether it is to be made.
    pub fn looked(self, look: DirectoryLook, user: u32) -> (result: Result<
        PrivateClaim,
        EndpointError,
    >)
        ensures
            match (result, privacy(self.dir_view(), look, user)) {
                (Ok(next), Ok(step)) => next.address_view() == self.address_view()
                    && next.dir_view() == step,
                (Err(error), Err(fault)) => error@ == fault,
                _ => false,
            },
    {
        match ensure_private_directory(self.dir.as_str(), look, user) {
            Ok(dir) => Ok(PrivateClaim { address: self.address, dir }),
            Err(error) => Err(error),
        }
    }
}

impl PrivateClaim {
    /// What to do about the directory.
    pub fn directory_step(&self) -> (step: DirectoryStep)
        ensures
            step == self.dir_view(),
    {
        self.dir
    }

    /// Goes on with what came of making the directory, where it was to be made, and
    /// what a connection attempt at the path found afterwards.
    pub fn probed(self, made: Result<(), String>, probe: SocketProbe, user: u32) -> (result: Result<
        FreeClaim,
        EndpointError,
    >)
        ensures
            if self.dir_view() is Create && made is Err {
                result matches Err(error) && error@ == EndpointFault::Io(made->Err_0@)
            } else {
                match (result, clearance(self.address_view(), probe, user)) {
                    (Ok(next), Ok(step)) => next.address_view() == self.address_view()
                        && next.socket_view() == step,
                    (Err(error), Err(fault)) => error@ == fault,
                    _ => false,
                }
            },
    {
        if let DirectoryStep::Create { .. } = self.dir {
            if let Err(reason) = made {
                return Err(EndpointError::Io(reason));
            }
        }
        match clear_stale_socket(&self.address, probe, user) {
            Ok(socket) => Ok(FreeClaim { address: self.address, socket }),
            Err(error) => Err(error),
        }
    }
}

impl FreeClaim {
    /// What to do before binding.
    pub fn socket_step(&self) -> (step: SocketStep)
        ensures
            step == self.socket_view(),
    {
        self.socket
    }

    /// Ends with what came of removing a stale socket, where there was one, and of
    /// binding afterwards.
    pub fn bound(self, removed: Result<(), String>, bound: Result<(), (IoKind, String)>) -> (result:
        Result<Endpoint, EndpointError>)
        ensures
            if self.socket_view() == SocketStep::RemoveStale && removed is Err {
                result matches Err(error) && error@ == EndpointFault::Io(removed->Err_0@)
            } else {
                match bound {
                    Ok(()) => result matches Ok(endpoint) && endpoint@ == self.address_view(),
                    Err((kind, message)) => result matches Err(error) && error@ == bind_fault(
                        self.address_view(),
                        kind,
                        message@,
                    ),
                }
            },
    {
        if self.socket == SocketStep::RemoveStale {
            if let Err(reason) = removed {
                return Err(EndpointError::Io(reason));
            }
        }
        match bound {
            Ok(()) => Ok(Endpoint { address: self.address }),
            Err((kind, message)) => Err(bind_failed(&self.address, kind, message)),
        }
    }
}

/// The default endpoint stands in the directory that the system gives the user, where
/// there is one, and otherwise in one under the temporary directory that has the user's
/// number in its name; the temporary directory is `/tmp` where none is given.
pub proof fn the_default_endpoint_is_the_users_own(dir: &[u8], tmp_dir: Option<&[u8]>, uid: u32)
    requires
        dir@.len() > 0,
        dir@.last() != 0x2f,
    ensures
        default_path(Some(dir), tmp_dir, uid) == dir@ + seq![0x2fu8] + encode_utf8("mehoy"@)
            + seq![0x2fu8] + encode_utf8("mehoyd.sock"@),
        exists|n: Seq<char>|
            reads_as(n, uid as int) && default_path(None, Some(dir), uid) == dir@ + seq![0x2fu8]
                + #[trigger] encode_utf8("mehoy-"@ + n) + seq![0x2fu8] + encode_utf8(
                "mehoyd.sock"@,
            ),
        exists|n: Seq<char>|
            reads_as(n, uid as int) && default_path(None, None, uid) == encode_utf8("/tmp"@)
                + seq![0x2fu8] + #[trigger] encode_utf8("mehoy-"@ + n) + seq![0x2fu8]
                + encode_utf8("mehoyd.sock"@),
{
    let n = decimal(uid as nat);
    a_number_reads_back_from_its_decimal(uid as nat);
    assert(reads_as(n, uid as int));
    reveal_strlit("mehoy");
    reveal_strlit("mehoy-");
    reveal_strlit("/tmp");
    assert(is_ascii_chars("mehoy"@));
    is_ascii_chars_encode_utf8("mehoy"@);
    assert(is_ascii_chars("/tmp"@));
    is_ascii_chars_encode_utf8("/tmp"@);
    let name = "mehoy-"@ + n;
    assert(is_ascii_chars(name)) by {
        assert forall|i: int| 0 <= i < name.len() implies #[trigger] name[i] as nat <= 0x7f by {
            if i < 6 {
                assert(name[i] == "mehoy-"@[i]);
            } else {
                assert('0' <= n[i - 6] <= '9');
                assert(name[i] == n[i - 6]);
            }
        }
    }
    is_ascii_chars_encode_utf8(name);
    let last = encode_utf8("mehoyd.sock"@);
    assert(encode_utf8("mehoy"@).last() == 'y' as u8);
    assert(encode_utf8("/tmp"@).last() == 'p' as u8);
    assert(name.last() == n.last());
    assert('0' <= n[n.len() - 1] <= '9');
    assert(encode_utf8(name).last() == n.last() as u8);
    assert(n.last() as u8 >= 48);
    assert(default_path(Some(dir), tmp_dir, uid) =~= dir@ + seq![0x2fu8] + encode_utf8("mehoy"@)
        + seq![0x2fu8] + last);
    assert(default_path(None, Some(dir), uid) =~= dir@ + seq![0x2fu8] + encode_utf8(name)
        + seq![0x2fu8] + last);
    assert(default_path(None, None, uid) =~= encode_utf8("/tmp"@) + seq![0x2fu8] + encode_utf8(
        name,
    ) + seq![0x2fu8] + last);
}

/// An endpoint whose directory is private or could be made so, and whose path is free or
/// held by a dead socket of the user's own that could be removed, is claimed once it is
/// bound; and a directory is made for its owner alone.
pub proof fn a_free_private_endpoint_is_claimed(address: Seq<char>, c: Claiming, user: u32)
    requires
        c.parent matches Some(dir) && dir.len() > 0,
        match c.look {
            DirectoryLook::NotFound => c.made is Ok,
            DirectoryLook::Failed(_) => false,
            DirectoryLook::Found { is_symlink, is_dir, uid, mode } => !is_symlink && is_dir && uid
                == user && mode & 0o077 == 0,
        },
        match c.probe {
            SocketProbe::NotFound => true,
            SocketProbe::Refused(Ok(occupant)) => occupant.is_socket && occupant.uid == user
                && c.removed is Ok,
            _ => false,
        },
        c.bound is Ok,
    ensures
        claim_fault(address, c, user) is None,
        c.look is NotFound ==> privacy(c.parent->0, c.look, user) == Ok::<
            DirectoryStep,
            EndpointFault,
        >(DirectoryStep::Create { mode: 0o700 }),
        c.look is Found ==> privacy(c.parent->0, c.look, user) == Ok::<
            DirectoryStep,
            EndpointFault,
        >(DirectoryStep::Use),
{
    if let DirectoryLook::Found { is_symlink, is_dir, uid, mode } = c.look {
        only_a_private_directory_is_used(is_symlink, is_dir, uid, mode, user);
    }
}

/// A mode is shown by the octal digits of its permission bits.
pub proof fn a_mode_is_shown_by_its_bits(mode: u32)
    ensures
        ({
            let shown = octal_mode(mode as nat);
            &&& shown.len() == 4
            &&& shown[0] == '0'
            &&& 64 * (shown[1] as int - 48) + 8 * (shown[2] as int - 48) + (shown[3] as int - 48)
                == mode % 512
        }),
{
    let a: u32 = mode / 64 % 8;
    let b: u32 = mode / 8 % 8;
    let c: u32 = mode % 8;
    assert(64 * (mode / 64 % 8) + 8 * (mode / 8 % 8) + mode % 8 == mode % 512) by (bit_vector);
    let shown = octal_mode(mode as nat);
    assert(octal_digit(a as nat) as int == 48 + a);
    assert(octal_digit(b as nat) as int == 48 + b);
    assert(octal_digit(c as nat) as int == 48 + c);
    assert(shown[1] == octal_digit(a as nat) && shown[2] == octal_digit(b as nat) && shown[3]
        == octal_digit(c as nat));
}

/// A directory that ends in a slash is not given another, and a variable that is set to
/// nothing counts as one that is not set.
pub proof fn the_default_endpoint_minds_slashes_and_blanks(
    dir: &[u8],
    nothing: &[u8],
    tmp_dir: Option<&[u8]>,
    uid: u32,
)
    requires
        dir@.len() > 0,
        dir@.last() == 0x2f,
        nothing@.len() == 0,
    ensures
        default_path(Some(dir), tmp_dir, uid) == dir@ + encode_utf8("mehoy"@) + seq![0x2fu8]
            + encode_utf8("mehoyd.sock"@),
        default_path(Some(nothing), tmp_dir, uid) == default_path(None, tmp_dir, uid),
        default_path(None, Some(nothing), uid) == default_path(None, None, uid),
{
    reveal_strlit("mehoy");
    assert(is_ascii_chars("mehoy"@));
    is_ascii_chars_encode_utf8("mehoy"@);
    assert(encode_utf8("mehoy"@).last() == 'y' as u8);
    assert(default_path(Some(dir), tmp_dir, uid) =~= dir@ + encode_utf8("mehoy"@) + seq![0x2fu8]
        + encode_utf8("mehoyd.sock"@));
}

/// A directory that is not private is refused for the first reason there is: that it is a
/// link, that it is no directory, whose it is, or whom its mode lets in.
pub proof fn an_insecure_directory_is_told_why(
    is_symlink: bool,
    is_dir: bool,
    uid: u32,
    mode: u32,
    user: u32,
)
    ensures
        ({
            let why = insecurity(is_symlink, is_dir, uid, mode, user);
            &&& is_symlink ==> why == Some("path is a symbolic link"@)
            &&& !is_symlink && !is_dir ==> why == Some("path is not a directory"@)
            &&& !is_symlink && is_dir && uid != user ==> exists|a: Seq<char>, b: Seq<char>|
                {
                    &&& reads_as(a, uid as int)
                    &&& reads_as(b, user as int)
                    &&& why == Some(#[trigger] ("owned by uid "@ + a + ", expected uid "@ + b))
                }
            &&& !is_symlink && is_dir && uid == user && mode & 0o077 != 0 ==> why == Some(
                "mode "@ + octal_mode(mode as nat) + " grants access beyond the owner"@,
            )
        }),
{
    assert(mode & 0o077 == mode % 0o100) by (bit_vector);
    a_number_reads_back_from_its_decimal(uid as nat);
    a_number_reads_back_from_its_decimal(user as nat);
    if !is_symlink && is_dir && uid != user {
        assert(insecurity(is_symlink, is_dir, uid, mode, user) == Some(
            "owned by uid "@ + decimal(uid as nat) + ", expected uid "@ + decimal(user as nat),
        ));
    }
}

/// What stands at a path and is not removed is told by what it is or whose it is, and a
/// failure to look by its reason.
pub proof fn an_occupant_is_told(address: Seq<char>, probe: SocketProbe, user: u32)
    ensures
        match probe {
            SocketProbe::Failed(reason) => clearance(address, probe, user) == Err::<
                SocketStep,
                EndpointFault,
            >(EndpointFault::Io(reason@)),
            SocketProbe::Refused(Err(reason)) => clearance(address, probe, user) == Err::<
                SocketStep,
                EndpointFault,
            >(EndpointFault::Io(reason@)),
            SocketProbe::Refused(Ok(occupant)) => {
                &&& !occupant.is_socket ==> clearance(address, probe, user) == Err::<
                    SocketStep,
                    EndpointFault,
                >(
                    EndpointFault::UnexpectedOccupant {
                        path: address,
                        reason: "existing file is not a socket"@,
                    },
                )
                &&& occupant.is_socket && occupant.uid != user ==> exists|n: Seq<char>|
                    reads_as(n, occupant.uid as int) && clearance(address, probe, user) == Err::<
                        SocketStep,
                        EndpointFault,
                    >(
                        EndpointFault::UnexpectedOccupant {
                            path: address,
                            reason: #[trigger] ("socket is owned by uid "@ + n),
                        },
                    )
            },
            _ => true,
        },
{
    if let SocketProbe::Refused(Ok(occupant)) = probe {
        let n = decimal(occupant.uid as nat);
        a_number_reads_back_from_its_decimal(occupant.uid as nat);
        if occupant.is_socket && occupant.uid != user {
            assert(clearance(address, probe, user)->Err_0->UnexpectedOccupant_reason
                == "socket is owned by uid "@ + n);
        }
    }
}

/// A path without a directory is told whole, in words that do not depend on it.
pub proof fn a_path_without_a_directory_is_told(address: Seq<char>, other: Seq<char>)
    ensures
        no_parent(address) is NoDefaultLocation,
        same_words(
            no_parent(address)->NoDefaultLocation_reason,
            address,
            no_parent(other)->NoDefaultLocation_reason,
            other,
        ),
{
    words_stay(
        "endpoint path "@,
        address,
        other,
        " has no parent directory"@,
        no_parent(address)->NoDefaultLocation_reason,
        no_parent(other)->NoDefaultLocation_reason,
    );
}

} // verus!
