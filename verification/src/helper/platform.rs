//! Applying network settings with the programs of a platform.

use crate::digest;
use crate::digest::sha256;
use crate::error::{ErrorCode, NetToolError};
use crate::helper::command;
use crate::helper::command::{
    execute_platform_commands, CommandRunner, PlatformCommand,
};
use crate::helper::keeper::{KeepStep, Keeper};
use crate::helper::macos;
use crate::helper::macos::build_macos_networksetup_commands;
use crate::helper::programs::{Programs, RunStep};
use crate::helper::safe_apply::NetworkExecutor;
use crate::helper::windows;
use crate::helper::windows::build_windows_netsh_commands;
use crate::helper_protocol;
use crate::helper_protocol::{same_state, NetworkDesiredState};
use crate::octets;
use crate::octets::{push_be64, push_bytes};
use crate::text;
use crate::text::{chars_of, concat, hex_digit, hex_text};
use vstd::prelude::*;

verus! {

/// The version of platform snapshots.
pub const PLATFORM_SNAPSHOT_VERSION: u32 = 1;

/// The platforms with an adapter.
#[derive(Clone, Copy, Debug, PartialEq, Eq, Structural)]
pub enum PlatformBackend {
    /// macOS, with `networksetup`.
    Macos,
    /// Windows, with `netsh.exe`.
    Windows,
}

/// Something that reads the state of an interface whole.
pub trait PlatformStateReader {
    /// Reads the state of an interface.
    fn read_state(&mut self, interface_id: &str) -> Result<NetworkDesiredState, NetToolError>;
}

/// A kept state of an interface.
#[derive(Clone, Debug, PartialEq, Eq)]
pub struct PlatformSnapshot {
    /// The version of the snapshot.
    pub version: u32,
    /// The interface.
    pub interface_id: String,
    /// The platform.
    pub backend: PlatformBackend,
    /// The state.
    pub state: NetworkDesiredState,
}

/// Something that keeps snapshots and writes states as JSON.
pub trait PlatformSnapshotStore {
    /// Keeps a snapshot and returns its identifier.
    fn save(&mut self, snapshot: &PlatformSnapshot) -> Result<String, NetToolError>;

    /// Returns a snapshot.
    fn load(&mut self, snapshot_id: &str) -> Result<PlatformSnapshot, NetToolError>;

    /// Writes a state as JSON.
    fn encode(&mut self, state: &NetworkDesiredState) -> Result<Vec<u8>, NetToolError>;
}

/// Why a configuration cannot be applied on a platform, if it cannot.
pub open spec fn platform_fault(
    backend: PlatformBackend,
    interface_id: Seq<char>,
    state: NetworkDesiredState,
) -> Option<(ErrorCode, Seq<char>)> {
    match backend {
        PlatformBackend::Macos => macos::macos_fault(interface_id, state),
        PlatformBackend::Windows => windows::windows_fault(interface_id, state),
    }
}

/// The commands that apply a configuration on a platform.
pub open spec fn platform_commands(
    backend: PlatformBackend,
    interface_id: Seq<char>,
    state: NetworkDesiredState,
) -> Seq<command::CommandView> {
    match backend {
        PlatformBackend::Macos => macos::macos_commands(interface_id, state@),
        PlatformBackend::Windows => windows::windows_commands(interface_id, state@),
    }
}

/// Builds the commands that apply a configuration on a platform.
///
/// # Errors
///
/// Fails as the builder of the platform does.
pub fn build_commands(
    backend: PlatformBackend,
    interface_id: &str,
    state: &NetworkDesiredState,
) -> (r: Result<Vec<PlatformCommand>, NetToolError>)
    ensures
        match r {
            Ok(commands) => {
                &&& platform_fault(backend, interface_id@, *state) is None
                &&& command::views(commands@) == platform_commands(backend, interface_id@, *state)
            },
            Err(e) => {
                &&& platform_fault(backend, interface_id@, *state) is Some
                &&& e.is(
                    (platform_fault(backend, interface_id@, *state)->0).0,
                    (platform_fault(backend, interface_id@, *state)->0).1,
                    false,
                )
            },
        },
{
    match backend {
        PlatformBackend::Macos => build_macos_networksetup_commands(interface_id, state),
        PlatformBackend::Windows => build_windows_netsh_commands(interface_id, state),
    }
}

/// The commands that are built pass the checks on commands.
pub proof fn law_built_commands_pass(
    backend: PlatformBackend,
    interface_id: Seq<char>,
    state: NetworkDesiredState,
)
    requires
        platform_fault(backend, interface_id, state) is None,
    ensures
        command::commands_fault(platform_commands(backend, interface_id, state)) is None,
{
}

/// Why a snapshot cannot be restored, if it cannot.
pub open spec fn restore_fault(backend: PlatformBackend, snapshot: PlatformSnapshot) -> Option<
    (ErrorCode, Seq<char>),
> {
    if snapshot.version != PLATFORM_SNAPSHOT_VERSION || snapshot.backend != backend {
        Some(
            (
                ErrorCode::ProtocolIncompatible,
                "platform snapshot version or backend is unsupported"@,
            ),
        )
    } else {
        platform_fault(backend, snapshot.interface_id@, snapshot.state)
    }
}

/// Builds the commands that restore a snapshot.
///
/// # Errors
///
/// Fails when the snapshot has another version or comes from another platform, and as the
/// builder of the platform does.
pub fn restore_commands(backend: PlatformBackend, snapshot: &PlatformSnapshot) -> (r: Result<
    Vec<PlatformCommand>,
    NetToolError,
>)
    ensures
        match r {
            Ok(commands) => {
                &&& restore_fault(backend, *snapshot) is None
                &&& command::views(commands@) == platform_commands(
                    backend,
                    snapshot.interface_id@,
                    snapshot.state,
                )
            },
            Err(e) => {
                &&& restore_fault(backend, *snapshot) is Some
                &&& e.is(
                    (restore_fault(backend, *snapshot)->0).0,
                    (restore_fault(backend, *snapshot)->0).1,
                    false,
                )
            },
        },
{
    if snapshot.version != PLATFORM_SNAPSHOT_VERSION || snapshot.backend != backend {
        return Err(
            NetToolError::new(
                ErrorCode::ProtocolIncompatible,
                "platform snapshot version or backend is unsupported",
                false,
            ),
        );
    }
    build_commands(backend, snapshot.interface_id.as_str(), &snapshot.state)
}

/// Whether a text can identify a snapshot: 64 hexadecimal digits.
pub open spec fn snapshot_id_valid(id: Seq<char>) -> bool {
    id.len() == 64 && forall|i: int| 0 <= i < id.len() ==> text::is_hex_digit(#[trigger] id[i])
}

/// Decides whether a text can identify a snapshot.
pub fn is_snapshot_id(id: &str) -> (r: bool)
    ensures
        r == snapshot_id_valid(id@),
{
    let v = chars_of(id);
    if v.len() != 64 {
        return false;
    }
    let mut i: usize = 0;
    while i < v.len()
        invariant
            v@ == id@,
            v@.len() == 64,
            i <= v@.len(),
            forall|j: int| 0 <= j < i ==> text::is_hex_digit(#[trigger] v@[j]),
        decreases v@.len() - i,
    {
        if !hex_digit(v[i]) {
            return false;
        }
        i += 1;
    }
    true
}

/// The name of the file of a snapshot.
///
/// # Errors
///
/// Fails when the text cannot identify a snapshot.
pub fn snapshot_file_name(snapshot_id: &str) -> (r: Result<String, NetToolError>)
    ensures
        match r {
            Ok(name) => snapshot_id_valid(snapshot_id@) && name@ == snapshot_id@ + ".json"@,
            Err(e) => !snapshot_id_valid(snapshot_id@) && e.is(
                ErrorCode::InvalidArgument,
                "platform snapshot ID is invalid"@,
                false,
            ),
        },
{
    if !is_snapshot_id(snapshot_id) {
        return Err(
            NetToolError::new(
                ErrorCode::InvalidArgument,
                "platform snapshot ID is invalid",
                false,
            ),
        );
    }
    Ok(concat(snapshot_id, ".json"))
}

/// A number of 128 bits as bytes, the highest first.
pub open spec fn be128(n: u128) -> Seq<u8> {
    octets::be64((n / 0x1_0000_0000_0000_0000) as u64) + octets::be64(
        (n % 0x1_0000_0000_0000_0000) as u64,
    )
}

/// Appends a number of 128 bits, the highest byte first.
pub fn push_be128(out: &mut Vec<u8>, n: u128)
    ensures
        final(out)@ == old(out)@ + be128(n),
{
    let high: u64 = (n / 0x1_0000_0000_0000_0000) as u64;
    let low: u64 = (n % 0x1_0000_0000_0000_0000) as u64;
    let ghost before = out@;
    push_be64(out, high);
    push_be64(out, low);
    proof {
        assert(out@ =~= before + be128(n));
    }
}

/// The identifier of a snapshot: the digest of the time and its JSON.
pub fn platform_snapshot_id(timestamp_nanos: u128, bytes: &[u8]) -> (r: String)
    ensures
        r@ == text::hex(digest::sha256_of(be128(timestamp_nanos) + bytes@), false),
{
    let mut input: Vec<u8> = Vec::new();
    push_be128(&mut input, timestamp_nanos);
    push_bytes(&mut input, bytes);
    proof {
        assert(input@ =~= be128(timestamp_nanos) + bytes@);
    }
    hex_text(sha256(input.as_slice()).as_slice(), false)
}

/// Whether a state was accepted because it is the one that was asked for, or refused.
pub open spec fn is_verified(
    actual: NetworkDesiredState,
    desired: NetworkDesiredState,
    r: Result<(), NetToolError>,
) -> bool {
    match r {
        Ok(_) => actual@ == desired@,
        Err(e) => actual@ != desired@ && e.is(
            ErrorCode::HelperExecutionFailed,
            "platform network state does not match requested state"@,
            false,
        ),
    }
}

/// Checks that what was read is what was asked for.
///
/// # Errors
///
/// Fails when the states differ.
pub fn verify_state(actual: &NetworkDesiredState, desired: &NetworkDesiredState) -> (r: Result<
    (),
    NetToolError,
>)
    ensures
        is_verified(*actual, *desired, r),
{
    if same_state(actual, desired) {
        Ok(())
    } else {
        Err(
            NetToolError::new(
                ErrorCode::HelperExecutionFailed,
                "platform network state does not match requested state",
                false,
            ),
        )
    }
}

/// How the state of an interface is read.
pub open spec fn state_read(
    from: Seq<KeepStep>,
    to: Seq<KeepStep>,
    interface_id: Seq<char>,
    r: Result<Vec<u8>, NetToolError>,
) -> bool {
    exists|read: Result<NetworkDesiredState, NetToolError>|
        {
            let behind = #[trigger] from.push(KeepStep::Read(interface_id, read));
            match read {
                Ok(state) => to == behind.push(KeepStep::Encode(state, r)),
                Err(e) => to == behind && r == Err::<Vec<u8>, NetToolError>(e),
            }
        }
}

/// How the state of an interface is kept. One that is not valid is not kept.
pub open spec fn state_kept(
    from: Seq<KeepStep>,
    to: Seq<KeepStep>,
    backend: PlatformBackend,
    interface_id: Seq<char>,
    r: Result<(String, Vec<u8>), NetToolError>,
) -> bool {
    exists|read: Result<NetworkDesiredState, NetToolError>|
        {
            let behind = #[trigger] from.push(KeepStep::Read(interface_id, read));
            match read {
                Ok(state) => match helper_protocol::state_fault(state) {
                    Some(fault) => to == behind && (r matches Err(e) && e.is(
                        ErrorCode::InvalidArgument,
                        fault,
                        false,
                    )),
                    None => exists|snapshot: PlatformSnapshot|
                        snapshot.version == PLATFORM_SNAPSHOT_VERSION && snapshot.interface_id@
                            == interface_id && snapshot.backend == backend && snapshot.state
                            == state && #[trigger] snapshot_kept(behind, to, snapshot, r),
                },
                Err(e) => to == behind && r == Err::<(String, Vec<u8>), NetToolError>(e),
            }
        }
}

/// How a snapshot is kept, and its state written as JSON behind that.
pub open spec fn snapshot_kept(
    from: Seq<KeepStep>,
    to: Seq<KeepStep>,
    snapshot: PlatformSnapshot,
    r: Result<(String, Vec<u8>), NetToolError>,
) -> bool {
    exists|saved: Result<String, NetToolError>|
        {
            let behind = #[trigger] from.push(KeepStep::Save(snapshot, saved));
            match saved {
                Ok(id) => exists|encoded: Result<Vec<u8>, NetToolError>|
                    to == #[trigger] behind.push(KeepStep::Encode(snapshot.state, encoded))
                        && match encoded {
                        Ok(json) => r == Ok::<(String, Vec<u8>), NetToolError>((id, json)),
                        Err(e) => r == Err::<(String, Vec<u8>), NetToolError>(e),
                    },
                Err(e) => to == behind && r == Err::<(String, Vec<u8>), NetToolError>(e),
            }
        }
}

/// How it is checked that a configuration is in force.
pub open spec fn state_compared(
    from: Seq<KeepStep>,
    to: Seq<KeepStep>,
    interface_id: Seq<char>,
    desired: NetworkDesiredState,
    r: Result<(), NetToolError>,
) -> bool {
    exists|read: Result<NetworkDesiredState, NetToolError>|
        to == #[trigger] from.push(KeepStep::Read(interface_id, read)) && match read {
            Ok(actual) => is_verified(actual, desired, r),
            Err(e) => r == Err::<(), NetToolError>(e),
        }
}

/// How a kept state is restored: it is read back, and the commands that apply it are run. What
/// cannot be restored reaches no program.
pub open spec fn restored(
    from: Seq<KeepStep>,
    to: Seq<KeepStep>,
    runs_from: Seq<RunStep>,
    runs_to: Seq<RunStep>,
    backend: PlatformBackend,
    snapshot_id: Seq<char>,
    r: Result<(), NetToolError>,
) -> bool {
    exists|loaded: Result<PlatformSnapshot, NetToolError>|
        to == #[trigger] from.push(KeepStep::Load(snapshot_id, loaded)) && match loaded {
            Ok(snapshot) => match restore_fault(backend, snapshot) {
                Some((code, fault)) => runs_to == runs_from && (r matches Err(e) && e.is(
                    code,
                    fault,
                    false,
                )),
                None => command::all_answered(
                    runs_from,
                    runs_to,
                    platform_commands(backend, snapshot.interface_id@, snapshot.state),
                    r,
                ),
            },
            Err(e) => runs_to == runs_from && r == Err::<(), NetToolError>(e),
        }
}

/// Applies network settings with the programs of a platform.
pub struct PlatformNetworkExecutor<R, S, T> {
    programs: Programs<R>,
    keeper: Keeper<S, T>,
    backend: PlatformBackend,
}

impl<R: CommandRunner, S: PlatformStateReader, T: PlatformSnapshotStore> PlatformNetworkExecutor<
    R,
    S,
    T,
> {
    /// The platform.
    pub closed spec fn backend(self) -> PlatformBackend {
        self.backend
    }

    /// The programs that were run.
    pub closed spec fn runs(self) -> Seq<RunStep> {
        self.programs.log()
    }

    /// The calls that were made of the reader and the store.
    pub closed spec fn kept(self) -> Seq<KeepStep> {
        self.keeper.log()
    }

    /// Creates an executor.
    pub fn new(runner: R, reader: S, store: T, backend: PlatformBackend) -> (r: Self)
        ensures
            r.backend() == backend,
            r.runs() == Seq::<RunStep>::empty(),
            r.kept() == Seq::<KeepStep>::empty(),
    {
        PlatformNetworkExecutor {
            programs: Programs::new(runner),
            keeper: Keeper::new(reader, store),
            backend,
        }
    }
}

impl<R: CommandRunner, S: PlatformStateReader, T: PlatformSnapshotStore> NetworkExecutor
    for PlatformNetworkExecutor<R, S, T> {
    fn read_state(&mut self, interface_id: &str) -> (r: Result<Vec<u8>, NetToolError>)
        ensures
            final(self).backend() == old(self).backend(),
            final(self).runs() == old(self).runs(),
            state_read(old(self).kept(), final(self).kept(), interface_id@, r),
    {
        let ghost from = self.kept();
        let read = self.keeper.read_state(interface_id);
        let ghost first = read;
        proof {
            assert(self.kept() == from.push(KeepStep::Read(interface_id@, first)));
        }
        match read {
            Ok(state) => self.keeper.encode(&state),
            Err(e) => Err(e),
        }
    }

    /// Keeps the state of an interface. A state that is not valid is not kept.
    fn snapshot(&mut self, interface_id: &str) -> (r: Result<(String, Vec<u8>), NetToolError>)
        ensures
            final(self).backend() == old(self).backend(),
            final(self).runs() == old(self).runs(),
            state_kept(
                old(self).kept(),
                final(self).kept(),
                old(self).backend(),
                interface_id@,
                r,
            ),
    {
        let ghost l0 = self.kept();
        let read = self.keeper.read_state(interface_id);
        let ghost first = read;
        let ghost l1 = self.kept();
        proof {
            assert(l1 == l0.push(KeepStep::Read(interface_id@, first)));
        }
        let state = match read {
            Ok(state) => state,
            Err(e) => {
                return Err(e);
            },
        };
        match state.validate() {
            Ok(_) => {},
            Err(message) => {
                return Err(NetToolError::new(ErrorCode::InvalidArgument, message, false));
            },
        }
        let snapshot = PlatformSnapshot {
            version: PLATFORM_SNAPSHOT_VERSION,
            interface_id: interface_id.to_owned(),
            backend: self.backend,
            state,
        };
        let saved = self.keeper.save(&snapshot);
        let ghost second = saved;
        let ghost l2 = self.kept();
        proof {
            assert(l2 == l1.push(KeepStep::Save(snapshot, second)));
        }
        let snapshot_id = match saved {
            Ok(id) => id,
            Err(e) => {
                proof {
                    let r = Err::<(String, Vec<u8>), NetToolError>(e);
                    assert(snapshot_kept(l1, l2, snapshot, r));
                }
                return Err(e);
            },
        };
        let encoded = self.keeper.encode(&snapshot.state);
        let ghost third = encoded;
        proof {
            assert(self.kept() == l2.push(KeepStep::Encode(snapshot.state, third)));
        }
        let r = match encoded {
            Ok(bytes) => Ok((snapshot_id, bytes)),
            Err(e) => Err(e),
        };
        proof {
            assert(snapshot_kept(l1, self.kept(), snapshot, r));
        }
        r
    }

    /// Applies a configuration. One that the platform cannot take reaches no program.
    fn apply(&mut self, interface_id: &str, desired_state: &NetworkDesiredState) -> (r: Result<
        (),
        NetToolError,
    >)
        ensures
            final(self).backend() == old(self).backend(),
            final(self).kept() == old(self).kept(),
            match helper_protocol::state_fault(*desired_state) {
                Some(fault) => {
                    &&& r matches Err(e) && e.is(ErrorCode::InvalidArgument, fault, false)
                    &&& final(self).runs() == old(self).runs()
                },
                None => match platform_fault(
                    old(self).backend(),
                    interface_id@,
                    *desired_state,
                ) {
                    Some((code, fault)) => {
                        &&& r matches Err(e) && e.is(code, fault, false)
                        &&& final(self).runs() == old(self).runs()
                    },
                    None => command::all_answered(
                        old(self).runs(),
                        final(self).runs(),
                        platform_commands(old(self).backend(), interface_id@, *desired_state),
                        r,
                    ),
                },
            },
    {
        match desired_state.validate() {
            Ok(_) => {},
            Err(message) => {
                return Err(NetToolError::new(ErrorCode::InvalidArgument, message, false));
            },
        }
        let commands = match build_commands(self.backend, interface_id, desired_state) {
            Ok(commands) => commands,
            Err(e) => {
                return Err(e);
            },
        };
        execute_platform_commands(&mut self.programs, commands.as_slice())
    }

    fn verify(&mut self, interface_id: &str, desired_state: &NetworkDesiredState) -> (r: Result<
        (),
        NetToolError,
    >)
        ensures
            final(self).backend() == old(self).backend(),
            final(self).runs() == old(self).runs(),
            state_compared(
                old(self).kept(),
                final(self).kept(),
                interface_id@,
                *desired_state,
                r,
            ),
    {
        let ghost from = self.kept();
        let read = self.keeper.read_state(interface_id);
        proof {
            assert(self.kept() == from.push(KeepStep::Read(interface_id@, read)));
        }
        match read {
            Ok(actual) => verify_state(&actual, desired_state),
            Err(e) => Err(e),
        }
    }

    /// Restores a kept state. What cannot identify a snapshot reaches neither store nor
    /// program.
    fn restore(&mut self, snapshot_id: &str) -> (r: Result<(), NetToolError>)
        ensures
            final(self).backend() == old(self).backend(),
            if snapshot_id_valid(snapshot_id@) {
                restored(
                    old(self).kept(),
                    final(self).kept(),
                    old(self).runs(),
                    final(self).runs(),
                    old(self).backend(),
                    snapshot_id@,
                    r,
                )
            } else {
                &&& *final(self) == *old(self)
                &&& r matches Err(e) && e.is(
                    ErrorCode::InvalidArgument,
                    "platform snapshot ID is invalid"@,
                    false,
                )
            },
    {
        match snapshot_file_name(snapshot_id) {
            Ok(_) => {},
            Err(e) => {
                return Err(e);
            },
        }
        let ghost from = self.kept();
        let loaded = self.keeper.load(snapshot_id);
        let ghost first = loaded;
        proof {
            assert(self.kept() == from.push(KeepStep::Load(snapshot_id@, first)));
        }
        let snapshot = match loaded {
            Ok(snapshot) => snapshot,
            Err(e) => {
                return Err(e);
            },
        };
        let commands = match restore_commands(self.backend, &snapshot) {
            Ok(commands) => commands,
            Err(e) => {
                return Err(e);
            },
        };
        execute_platform_commands(&mut self.programs, commands.as_slice())
    }
}

} // verus!
