//! Handing interfaces to DPDK and setting up huge pages on Linux, with a way back.

use crate::digest;
use crate::digest::sha256;
use crate::dpdk::environment;
use crate::dpdk::environment::valid_pci_address;
use crate::error::{ErrorCode, NetToolError};
use crate::helper::machine::{Machine, MachineStep};
use crate::helper_protocol;
use crate::text;
use crate::text::{
    concat, decimal_text, ends_with, hex_text, parse_unsigned, same, split_on, starts_with, trim,
};
use vstd::prelude::*;
use vstd::utf8::encode_utf8;

verus! {

/// The version of resource records.
pub const RESOURCE_STATE_VERSION: u32 = 1;

/// The driver that DPDK uses.
pub const DPDK_DRIVER: &'static str = "vfio-pci";

/// Why the kernel refused.
#[derive(Clone, Debug, PartialEq, Eq)]
pub struct KernelFault {
    /// Whether the path does not exist.
    pub not_found: bool,
    /// Whether the call was interrupted, so that trying again may help.
    pub interrupted: bool,
    /// The text of the error.
    pub message: String,
}

/// Something that reads and writes the files of the kernel.
pub trait KernelAccess {
    /// Reads where a link points.
    fn read_link(&mut self, path: &str) -> Result<String, KernelFault>;

    /// Reads a file.
    fn read_to_string(&mut self, path: &str) -> Result<String, KernelFault>;

    /// Writes a file.
    fn write(&mut self, path: &str, value: &[u8]) -> Result<(), KernelFault>;
}

/// The record of an interface that was handed over.
#[derive(Clone, Debug, PartialEq, Eq)]
pub struct NicSnapshot {
    /// The version of the record.
    pub version: u32,
    /// The operation.
    pub operation_id: String,
    /// The interface.
    pub pci_address: String,
    /// Its driver before.
    pub original_driver: Option<String>,
    /// Whether it was given back.
    pub released: bool,
}

/// What the record of an interface says.
#[verifier::ext_equal]
pub struct NicView {
    /// The version of the record.
    pub version: u32,
    /// The operation.
    pub operation_id: Seq<char>,
    /// The interface.
    pub pci_address: Seq<char>,
    /// Its driver before.
    pub original_driver: Option<Seq<char>>,
    /// Whether it was given back.
    pub released: bool,
}

impl View for NicSnapshot {
    type V = NicView;

    open spec fn view(&self) -> NicView {
        NicView {
            version: self.version,
            operation_id: self.operation_id@,
            pci_address: self.pci_address@,
            original_driver: text::optional(self.original_driver),
            released: self.released,
        }
    }
}

/// The record of huge pages that were set up.
#[derive(Clone, Debug, PartialEq, Eq)]
pub struct HugepageSnapshot {
    /// The version of the record.
    pub version: u32,
    /// The operation.
    pub operation_id: String,
    /// The NUMA node.
    pub node: Option<u32>,
    /// The size of a page.
    pub page_size_kib: u64,
    /// The number of pages before.
    pub previous_pages: u64,
    /// The number of pages asked for.
    pub requested_pages: u64,
    /// Whether they were released.
    pub released: bool,
}

/// What the record of huge pages says.
#[verifier::ext_equal]
pub struct HugepageView {
    /// The version of the record.
    pub version: u32,
    /// The operation.
    pub operation_id: Seq<char>,
    /// The NUMA node.
    pub node: Option<u32>,
    /// The size of a page.
    pub page_size_kib: u64,
    /// The number of pages before.
    pub previous_pages: u64,
    /// The number of pages asked for.
    pub requested_pages: u64,
    /// Whether they were released.
    pub released: bool,
}

impl View for HugepageSnapshot {
    type V = HugepageView;

    open spec fn view(&self) -> HugepageView {
        HugepageView {
            version: self.version,
            operation_id: self.operation_id@,
            node: self.node,
            page_size_kib: self.page_size_kib,
            previous_pages: self.previous_pages,
            requested_pages: self.requested_pages,
            released: self.released,
        }
    }
}

/// Something that keeps records under file names.
pub trait ResourceStore {
    /// Returns the record of an interface, if there is one.
    fn find_nic(&mut self, file_name: &str) -> Result<Option<NicSnapshot>, NetToolError>;

    /// Returns the record of an interface; fails where there is none.
    fn load_nic(&mut self, file_name: &str) -> Result<NicSnapshot, NetToolError>;

    /// Keeps the record of an interface.
    fn save_nic(&mut self, file_name: &str, snapshot: &NicSnapshot) -> Result<(), NetToolError>;

    /// Returns the record of huge pages, if there is one.
    fn find_hugepages(&mut self, file_name: &str) -> Result<
        Option<HugepageSnapshot>,
        NetToolError,
    >;

    /// Returns the record of huge pages; fails where there is none.
    fn load_hugepages(&mut self, file_name: &str) -> Result<HugepageSnapshot, NetToolError>;

    /// Keeps the record of huge pages.
    fn save_hugepages(&mut self, file_name: &str, snapshot: &HugepageSnapshot) -> Result<
        (),
        NetToolError,
    >;
}

/// What an operation came to.
#[derive(Clone, Debug, PartialEq, Eq)]
pub struct ValueResult {
    /// The driver before.
    pub original_driver: Option<String>,
    /// The driver after.
    pub active_driver: Option<String>,
    /// The number of pages before.
    pub previous_pages: Option<u64>,
    /// The number of pages after.
    pub active_pages: Option<u64>,
}

// -------------------------------------------------------------------------- names and paths

/// A path below another one.
pub open spec fn below(base: Seq<char>, rest: Seq<char>) -> Seq<char> {
    if text::has_suffix(base, "/"@) {
        base + rest
    } else {
        base + "/"@ + rest
    }
}

fn join_path(base: &str, rest: &str) -> (r: String)
    ensures
        r@ == below(base@, rest@),
{
    let mut out = base.to_owned();
    if !ends_with(base, "/") {
        out.append("/");
    }
    out.append(rest);
    out
}

/// The directory of a device.
pub open spec fn device_path(root: Seq<char>, pci_address: Seq<char>) -> Seq<char> {
    below(below(root, "bus/pci/devices"@), pci_address)
}

fn path_of_device(root: &str, pci_address: &str) -> (r: String)
    ensures
        r@ == device_path(root@, pci_address@),
{
    join_path(join_path(root, "bus/pci/devices").as_str(), pci_address)
}

/// The file that holds the number of huge pages.
pub open spec fn hugepage_path(root: Seq<char>, node: Option<u32>, page_size_kib: u64) -> Seq<
    char,
> {
    let suffix = "hugepages/hugepages-"@ + text::decimal(page_size_kib as nat) + "kB/nr_hugepages"@;
    match node {
        None => below(below(root, "kernel/mm"@), suffix),
        Some(n) => below(
            below(below(root, "devices/system/node"@), "node"@ + text::decimal(n as nat)),
            suffix,
        ),
    }
}

/// Builds the path of the file that holds the number of huge pages.
pub fn path_of_hugepages(root: &str, node: Option<u32>, page_size_kib: u64) -> (r: String)
    ensures
        r@ == hugepage_path(root@, node, page_size_kib),
{
    let mut suffix = "hugepages/hugepages-".to_owned();
    suffix.append(decimal_text(page_size_kib).as_str());
    suffix.append("kB/nr_hugepages");
    match node {
        None => join_path(join_path(root, "kernel/mm").as_str(), suffix.as_str()),
        Some(n) => {
            let name = concat("node", decimal_text(n as u64).as_str());
            let base = join_path(join_path(root, "devices/system/node").as_str(), name.as_str());
            join_path(base.as_str(), suffix.as_str())
        },
    }
}

/// The file name of a record: its kind and the digest of the operation.
pub open spec fn record_name(kind: Seq<char>, operation_id: Seq<char>) -> Seq<char> {
    kind + "-"@ + text::hex(digest::sha256_of(encode_utf8(operation_id)), false) + ".json"@
}

/// Builds the file name of a record.
pub fn name_of_record(kind: &str, operation_id: &str) -> (r: String)
    ensures
        r@ == record_name(kind@, operation_id@),
{
    let mut out = kind.to_owned();
    out.append("-");
    out.append(hex_text(sha256(operation_id.as_bytes()).as_slice(), false).as_str());
    out.append(".json");
    out
}

/// The parts of a path that count: those that are neither empty nor a single dot.
pub open spec fn path_parts(pieces: Seq<Seq<char>>) -> Seq<Seq<char>>
    decreases pieces.len(),
{
    if pieces.len() == 0 {
        Seq::empty()
    } else {
        let head = path_parts(pieces.drop_last());
        if pieces.last().len() == 0 || pieces.last() == "."@ {
            head
        } else {
            head.push(pieces.last())
        }
    }
}

/// The last part of a path, if it names something.
pub open spec fn last_part(path: Seq<char>) -> Option<Seq<char>> {
    let parts = path_parts(text::split(path, '/'));
    if parts.len() == 0 || parts.last() == ".."@ {
        None
    } else {
        Some(parts.last())
    }
}

/// Returns the last part of a path, if it names something.
pub fn file_name_of(path: &str) -> (r: Option<String>)
    ensures
        text::optional(r) == last_part(path@),
{
    let pieces = split_on(path, '/');
    let ghost all = text::split(path@, '/');
    let mut last: Option<String> = None;
    let mut i: usize = 0;
    while i < pieces.len()
        invariant
            i <= pieces@.len(),
            text::texts(pieces@) == all,
            all == text::split(path@, '/'),
            match last {
                None => path_parts(all.take(i as int)).len() == 0,
                Some(t) => path_parts(all.take(i as int)).len() > 0 && path_parts(
                    all.take(i as int),
                ).last() == t@,
            },
        decreases pieces@.len() - i,
    {
        proof {
            assert(all.take(i + 1).drop_last() == all.take(i as int));
            assert(all.take(i + 1).last() == pieces@[i as int]@);
        }
        let piece = pieces[i].as_str();
        if !piece.is_empty() && !same(piece, ".") {
            last = Some(piece.to_owned());
        }
        i += 1;
    }
    proof {
        assert(all.take(all.len() as int) == all);
    }
    match last {
        None => None,
        Some(t) => if same(t.as_str(), "..") {
            None
        } else {
            Some(t)
        },
    }
}

// -------------------------------------------------------------------------------- decisions

/// The error of a call into the kernel; it can be repeated where the call was interrupted.
pub fn kernel_error(context: &str, fault: &KernelFault) -> (r: NetToolError)
    ensures
        is_kernel_error(context@, *fault, r),
{
    let mut message = context.to_owned();
    message.append(": ");
    message.append(fault.message.as_str());
    NetToolError::new(ErrorCode::HelperExecutionFailed, message.as_str(), fault.interrupted)
}

fn execution_error(message: &str) -> (r: NetToolError)
    ensures
        r.is(ErrorCode::HelperExecutionFailed, message@, false),
{
    NetToolError::new(ErrorCode::HelperExecutionFailed, message, false)
}

fn operation_conflict() -> (r: NetToolError)
    ensures
        is_conflict(r),
{
    NetToolError::new(
        ErrorCode::OperationConflict,
        "resource operation ID was reused with different arguments",
        false,
    )
}

/// Whether an error tells what the kernel said.
pub open spec fn is_kernel_error(context: Seq<char>, fault: KernelFault, e: NetToolError) -> bool {
    e.is(ErrorCode::HelperExecutionFailed, context + ": "@ + fault.message@, fault.interrupted)
}

/// Whether the driver that a link names was taken, or refused.
pub open spec fn is_driver(
    link: Result<String, KernelFault>,
    r: Result<Option<String>, NetToolError>,
) -> bool {
    match link {
        Ok(target) => match r {
            Ok(Some(name)) => last_part(target@) == Some(name@),
            Ok(None) => false,
            Err(e) => last_part(target@) is None && e.is(
                ErrorCode::HelperExecutionFailed,
                "PCI driver symlink is invalid"@,
                false,
            ),
        },
        Err(fault) => if fault.not_found {
            r == Ok::<Option<String>, NetToolError>(None)
        } else {
            r matches Err(e) && is_kernel_error("read PCI driver"@, fault, e)
        },
    }
}

/// Takes the driver of a device from what its link says: none where there is no link.
///
/// # Errors
///
/// Fails when the link names nothing, and when it cannot be read for another reason.
pub fn driver_from_link(link: Result<String, KernelFault>) -> (r: Result<
    Option<String>,
    NetToolError,
>)
    ensures
        is_driver(link, r),
{
    match link {
        Ok(target) => match file_name_of(target.as_str()) {
            Some(name) => Ok(Some(name)),
            None => Err(execution_error("PCI driver symlink is invalid")),
        },
        Err(fault) => if fault.not_found {
            Ok(None)
        } else {
            Err(kernel_error("read PCI driver", &fault))
        },
    }
}

/// Decides whether two optional texts are the same.
fn same_optional(a: &Option<String>, b: &Option<String>) -> (r: bool)
    ensures
        r == (text::optional(*a) == text::optional(*b)),
{
    match (a, b) {
        (Some(x), Some(y)) => same(x.as_str(), y.as_str()),
        (None, None) => true,
        _ => false,
    }
}

fn copy_optional(a: &Option<String>) -> (r: Option<String>)
    ensures
        text::optional(r) == text::optional(*a),
{
    match a {
        Some(t) => Some(t.as_str().to_owned()),
        None => None,
    }
}

/// A write to a file of the kernel.
#[derive(Clone, Debug, PartialEq, Eq)]
pub struct KernelWrite {
    /// The path.
    pub path: String,
    /// The text to write.
    pub value: String,
    /// What the write is for.
    pub context: &'static str,
}

/// A write as texts: the path, the value and what it is for.
pub type WriteView = (Seq<char>, Seq<char>, Seq<char>);

/// Writes as texts.
pub open spec fn write_views(writes: Seq<KernelWrite>) -> Seq<WriteView> {
    Seq::new(
        writes.len(),
        |i: int| (writes[i].path@, writes[i].value@, writes[i].context@),
    )
}

/// The writes that bind a device to a driver, or to none: nothing where it is bound as asked
/// for; otherwise the override, the release of the old driver and the search for the new one.
pub open spec fn binding_writes(
    root: Seq<char>,
    pci_address: Seq<char>,
    current: Option<Seq<char>>,
    target: Option<Seq<char>>,
) -> Seq<WriteView> {
    if current == target {
        Seq::empty()
    } else {
        let wanted = match target {
            Some(t) => t,
            None => ""@,
        };
        let first = seq![
            (
                below(device_path(root, pci_address), "driver_override"@),
                wanted,
                "write PCI driver override"@,
            ),
        ];
        let release = match current {
            Some(c) => seq![
                (
                    below(below(below(root, "bus/pci/drivers"@), c), "unbind"@),
                    pci_address,
                    "unbind PCI driver"@,
                ),
            ],
            None => Seq::empty(),
        };
        let probe = if target is Some {
            seq![(below(root, "bus/pci/drivers_probe"@), pci_address, "probe PCI driver"@)]
        } else {
            Seq::empty()
        };
        first + release + probe
    }
}

/// Plans the writes that bind a device to a driver, or to none.
pub fn plan_binding(
    root: &str,
    pci_address: &str,
    current: &Option<String>,
    target: &Option<String>,
) -> (r: Vec<KernelWrite>)
    ensures
        write_views(r@) == binding_writes(
            root@,
            pci_address@,
            text::optional(*current),
            text::optional(*target),
        ),
{
    let mut out: Vec<KernelWrite> = Vec::new();
    if same_optional(current, target) {
        proof {
            assert(write_views(out@) =~= Seq::empty());
        }
        return out;
    }
    let wanted: String = match target {
        Some(t) => t.as_str().to_owned(),
        None => "".to_owned(),
    };
    out.push(
        KernelWrite {
            path: join_path(path_of_device(root, pci_address).as_str(), "driver_override"),
            value: wanted,
            context: "write PCI driver override",
        },
    );
    if let Some(driver) = current {
        let drivers = join_path(root, "bus/pci/drivers");
        let own = join_path(drivers.as_str(), driver.as_str());
        out.push(
            KernelWrite {
                path: join_path(own.as_str(), "unbind"),
                value: pci_address.to_owned(),
                context: "unbind PCI driver",
            },
        );
    }
    if target.is_some() {
        out.push(
            KernelWrite {
                path: join_path(root, "bus/pci/drivers_probe"),
                value: pci_address.to_owned(),
                context: "probe PCI driver",
            },
        );
    }
    proof {
        assert(write_views(out@) =~= binding_writes(
            root@,
            pci_address@,
            text::optional(*current),
            text::optional(*target),
        ));
    }
    out
}

/// Whether a driver was accepted because it is the one that was asked for, or refused.
pub open spec fn is_bound(
    actual: Option<Seq<char>>,
    target: Option<Seq<char>>,
    r: Result<(), NetToolError>,
) -> bool {
    match r {
        Ok(_) => actual == target,
        Err(e) => actual != target && e.is(
            ErrorCode::HelperExecutionFailed,
            "PCI driver read-back verification failed"@,
            false,
        ),
    }
}

/// Checks that a device is bound as asked for.
///
/// # Errors
///
/// Fails when it is not.
pub fn check_binding(actual: &Option<String>, target: &Option<String>) -> (r: Result<
    (),
    NetToolError,
>)
    ensures
        is_bound(text::optional(*actual), text::optional(*target), r),
{
    if same_optional(actual, target) {
        Ok(())
    } else {
        Err(execution_error("PCI driver read-back verification failed"))
    }
}

/// Checks a PCI address.
///
/// # Errors
///
/// Fails when it is not one.
pub fn validate_pci_address(value: &str) -> (r: Result<(), NetToolError>)
    ensures
        match r {
            Ok(_) => environment::pci_form(value@),
            Err(e) => !environment::pci_form(value@) && e.is(
                ErrorCode::InvalidArgument,
                "PCI address must use dddd:bb:ss.f format"@,
                false,
            ),
        },
{
    if valid_pci_address(value) {
        Ok(())
    } else {
        Err(
            NetToolError::new(
                ErrorCode::InvalidArgument,
                "PCI address must use dddd:bb:ss.f format",
                false,
            ),
        )
    }
}

/// Checks a number of huge pages.
///
/// # Errors
///
/// Fails when it is zero or more than one tebibyte.
pub fn validate_hugepages(pages: u64, page_size_kib: u64) -> (r: Result<(), NetToolError>)
    ensures
        match r {
            Ok(_) => helper_protocol::hugepage_fault(pages, page_size_kib) is None,
            Err(e) => helper_protocol::hugepage_fault(pages, page_size_kib) is Some && e.is(
                ErrorCode::InvalidArgument,
                "Huge Page request is outside the safety limit"@,
                false,
            ),
        },
{
    let fits: bool = match pages.checked_mul(page_size_kib) {
        Some(total) => total <= 1073741824,
        None => false,
    };
    if pages == 0 || page_size_kib == 0 || !fits {
        return Err(
            NetToolError::new(
                ErrorCode::InvalidArgument,
                "Huge Page request is outside the safety limit",
                false,
            ),
        );
    }
    Ok(())
}

/// Whether the number that a text stands for was taken, or refused.
pub open spec fn is_count(contents: Seq<char>, r: Result<u64, NetToolError>) -> bool {
    let value = text::unsigned_value(text::trimmed(contents), u64::MAX as nat);
    match r {
        Ok(n) => value == Some(n as nat),
        Err(e) => value is None && e.is(
            ErrorCode::HelperExecutionFailed,
            "Huge Page count is invalid"@,
            false,
        ),
    }
}

/// Reads a number of huge pages.
///
/// # Errors
///
/// Fails when the text is not a number.
pub fn parse_count(contents: &str) -> (r: Result<u64, NetToolError>)
    ensures
        is_count(contents@, r),
{
    match parse_unsigned(trim(contents).as_str(), 0xffff_ffff_ffff_ffff) {
        Some(n) => Ok(n),
        None => Err(execution_error("Huge Page count is invalid")),
    }
}

/// Whether the record of an interface is that of a request.
pub open spec fn nic_requested(
    existing: NicSnapshot,
    operation_id: Seq<char>,
    pci_address: Seq<char>,
) -> bool {
    existing.operation_id@ == operation_id && existing.pci_address@ == pci_address
}

/// Whether it was decided that a record belongs to a request: not where it is that of another
/// one, nor where what it speaks of was given back.
pub open spec fn is_decided(
    own: bool,
    released: bool,
    message: Seq<char>,
    r: Result<(), NetToolError>,
) -> bool {
    match r {
        Ok(_) => own && !released,
        Err(e) => if own {
            released && e.is(ErrorCode::InvalidState, message, false)
        } else {
            is_conflict(e)
        },
    }
}

/// Whether an error says that an operation was used for something else.
pub open spec fn is_conflict(e: NetToolError) -> bool {
    e.is(
        ErrorCode::OperationConflict,
        "resource operation ID was reused with different arguments"@,
        false,
    )
}

/// Decides whether the record of an interface belongs to a request to hand it over.
///
/// # Errors
///
/// Fails when it belongs to another request, and when the interface was given back.
pub fn accept_nic_record(existing: &NicSnapshot, operation_id: &str, pci_address: &str) -> (r:
    Result<(), NetToolError>)
    ensures
        is_decided(
            nic_requested(*existing, operation_id@, pci_address@),
            existing.released,
            "NIC prepare operation was already released"@,
            r,
        ),
{
    if !same(existing.operation_id.as_str(), operation_id) || !same(
        existing.pci_address.as_str(),
        pci_address,
    ) {
        return Err(operation_conflict());
    }
    if existing.released {
        return Err(
            NetToolError::new(
                ErrorCode::InvalidState,
                "NIC prepare operation was already released",
                false,
            ),
        );
    }
    Ok(())
}

/// Decides whether the record of an interface allows it to be given back.
///
/// # Errors
///
/// Fails when it belongs to another operation or interface, or has another version.
pub fn accept_nic_restore(snapshot: &NicSnapshot, operation_id: &str, pci_address: &str) -> (r:
    Result<(), NetToolError>)
    ensures
        match r {
            Ok(_) => snapshot.version == RESOURCE_STATE_VERSION && snapshot.operation_id@
                == operation_id@ && snapshot.pci_address@ == pci_address@,
            Err(e) => !(snapshot.version == RESOURCE_STATE_VERSION && snapshot.operation_id@
                == operation_id@ && snapshot.pci_address@ == pci_address@) && e.is(
                ErrorCode::OperationConflict,
                "resource operation ID was reused with different arguments"@,
                false,
            ),
        },
{
    if snapshot.version != RESOURCE_STATE_VERSION || !same(
        snapshot.operation_id.as_str(),
        operation_id,
    ) || !same(snapshot.pci_address.as_str(), pci_address) {
        return Err(operation_conflict());
    }
    Ok(())
}

/// Whether the record of huge pages belongs to a request.
pub open spec fn hugepages_requested(
    existing: HugepageSnapshot,
    operation_id: Seq<char>,
    node: Option<u32>,
    pages: u64,
    page_size_kib: u64,
) -> bool {
    &&& existing.operation_id@ == operation_id
    &&& existing.node == node
    &&& existing.page_size_kib == page_size_kib
    &&& existing.requested_pages == pages
}

fn same_node(a: &Option<u32>, b: &Option<u32>) -> (r: bool)
    ensures
        r == (*a == *b),
{
    match (a, b) {
        (Some(x), Some(y)) => *x == *y,
        (None, None) => true,
        _ => false,
    }
}

/// Decides whether the record of huge pages belongs to a request to set them up.
///
/// # Errors
///
/// Fails when it belongs to another request, and when the pages were released.
pub fn accept_hugepage_record(
    existing: &HugepageSnapshot,
    operation_id: &str,
    node: Option<u32>,
    pages: u64,
    page_size_kib: u64,
) -> (r: Result<(), NetToolError>)
    ensures
        is_decided(
            hugepages_requested(*existing, operation_id@, node, pages, page_size_kib),
            existing.released,
            "Huge Page prepare operation was already released"@,
            r,
        ),
{
    if !same(existing.operation_id.as_str(), operation_id) || !same_node(&existing.node, &node)
        || existing.page_size_kib != page_size_kib || existing.requested_pages != pages {
        return Err(operation_conflict());
    }
    if existing.released {
        return Err(
            NetToolError::new(
                ErrorCode::InvalidState,
                "Huge Page prepare operation was already released",
                false,
            ),
        );
    }
    Ok(())
}

/// Decides whether the record of huge pages allows them to be released.
///
/// # Errors
///
/// Fails when it belongs to another operation or has another version.
pub fn accept_hugepage_release(snapshot: &HugepageSnapshot, operation_id: &str) -> (r: Result<
    (),
    NetToolError,
>)
    ensures
        match r {
            Ok(_) => snapshot.version == RESOURCE_STATE_VERSION && snapshot.operation_id@
                == operation_id@,
            Err(e) => !(snapshot.version == RESOURCE_STATE_VERSION && snapshot.operation_id@
                == operation_id@) && e.is(
                ErrorCode::OperationConflict,
                "resource operation ID was reused with different arguments"@,
                false,
            ),
        },
{
    if snapshot.version != RESOURCE_STATE_VERSION || !same(
        snapshot.operation_id.as_str(),
        operation_id,
    ) {
        return Err(operation_conflict());
    }
    Ok(())
}

// ------------------------------------------------------------------------- how it is carried out

/// How the driver of a device is read.
pub open spec fn driver_read(
    from: Seq<MachineStep>,
    to: Seq<MachineStep>,
    root: Seq<char>,
    pci_address: Seq<char>,
    r: Result<Option<String>, NetToolError>,
) -> bool {
    exists|link: Result<String, KernelFault>|
        to == #[trigger] from.push(
            MachineStep::Link(below(device_path(root, pci_address), "driver"@), link),
        ) && is_driver(link, r)
}

/// The calls that texts that are written come to, with their answers.
pub open spec fn writes_of(
    writes: Seq<WriteView>,
    answers: Seq<Result<(), KernelFault>>,
) -> Seq<MachineStep> {
    Seq::new(
        answers.len(),
        |i: int| MachineStep::Write(writes[i].0, encode_utf8(writes[i].1), answers[i]),
    )
}

/// How texts are written to the kernel: one behind the other, up to the first that fails.
pub open spec fn written(
    from: Seq<MachineStep>,
    to: Seq<MachineStep>,
    writes: Seq<WriteView>,
    answers: Seq<Result<(), KernelFault>>,
) -> bool {
    &&& to == from + writes_of(writes, answers)
    &&& answers.len() <= writes.len()
    &&& forall|i: int| 0 <= i < answers.len() - 1 ==> (#[trigger] answers[i]) is Ok
}

/// How a device is bound to a driver, or to none. Where it is not bound so already, that is
/// written, and read back.
pub open spec fn bound(
    from: Seq<MachineStep>,
    to: Seq<MachineStep>,
    root: Seq<char>,
    pci_address: Seq<char>,
    target: Option<Seq<char>>,
    r: Result<(), NetToolError>,
) -> bool {
    exists|middle: Seq<MachineStep>, first: Result<Option<String>, NetToolError>| #[trigger]
        driver_read(from, middle, root, pci_address, first) && match first {
            Ok(current) => if text::optional(current) == target {
                r is Ok && to == middle
            } else {
                rebound(middle, to, root, pci_address, text::optional(current), target, r)
            },
            Err(e) => to == middle && r == Err::<(), NetToolError>(e),
        }
}

/// How a device is moved from one driver to another.
pub open spec fn rebound(
    from: Seq<MachineStep>,
    to: Seq<MachineStep>,
    root: Seq<char>,
    pci_address: Seq<char>,
    current: Option<Seq<char>>,
    target: Option<Seq<char>>,
    r: Result<(), NetToolError>,
) -> bool {
    let writes = binding_writes(root, pci_address, current, target);
    exists|middle: Seq<MachineStep>, answers: Seq<Result<(), KernelFault>>| #[trigger]
        written(from, middle, writes, answers) && if answers.len() > 0 && answers.last() is Err {
            to == middle && (r matches Err(e) && is_kernel_error(
                writes[answers.len() - 1].2,
                answers.last()->Err_0,
                e,
            ))
        } else {
            answers.len() == writes.len() && read_back(middle, to, root, pci_address, target, r)
        }
}

/// How it is checked that a device is bound to a driver, or to none.
pub open spec fn read_back(
    from: Seq<MachineStep>,
    to: Seq<MachineStep>,
    root: Seq<char>,
    pci_address: Seq<char>,
    target: Option<Seq<char>>,
    r: Result<(), NetToolError>,
) -> bool {
    exists|second: Result<Option<String>, NetToolError>| #[trigger]
        driver_read(from, to, root, pci_address, second) && match second {
            Ok(actual) => is_bound(text::optional(actual), target, r),
            Err(e) => r == Err::<(), NetToolError>(e),
        }
}

/// How the record of an interface comes about: the one that there is, if it belongs to the
/// request; otherwise a new one with the driver that the interface has.
pub open spec fn nic_recorded(
    from: Seq<MachineStep>,
    to: Seq<MachineStep>,
    root: Seq<char>,
    operation_id: Seq<char>,
    pci_address: Seq<char>,
    r: Result<NicSnapshot, NetToolError>,
) -> bool {
    exists|found: Result<Option<NicSnapshot>, NetToolError>|
        {
            let behind = #[trigger] from.push(
                MachineStep::FindNic(record_name("nic"@, operation_id), found),
            );
            match found {
            Ok(Some(existing)) => to == behind && exists|decided: Result<(), NetToolError>| #[trigger]
                is_decided(
                    nic_requested(existing, operation_id, pci_address),
                    existing.released,
                    "NIC prepare operation was already released"@,
                    decided,
                ) && match decided {
                    Ok(_) => r == Ok::<NicSnapshot, NetToolError>(existing),
                    Err(e) => r == Err::<NicSnapshot, NetToolError>(e),
                },
            Ok(None) => nic_newly_recorded(behind, to, root, operation_id, pci_address, r),
            Err(e) => to == behind && r == Err::<NicSnapshot, NetToolError>(e),
            }
        }
}

/// How a new record of an interface comes about.
pub open spec fn nic_newly_recorded(
    from: Seq<MachineStep>,
    to: Seq<MachineStep>,
    root: Seq<char>,
    operation_id: Seq<char>,
    pci_address: Seq<char>,
    r: Result<NicSnapshot, NetToolError>,
) -> bool {
    exists|middle: Seq<MachineStep>, driver: Result<Option<String>, NetToolError>| #[trigger]
        driver_read(from, middle, root, pci_address, driver) && match driver {
            Ok(original) => exists|fresh: NicSnapshot, saved: Result<(), NetToolError>|
                to == #[trigger] middle.push(
                    MachineStep::SaveNic(record_name("nic"@, operation_id), fresh, saved),
                ) && fresh.version == RESOURCE_STATE_VERSION && fresh.operation_id@
                    == operation_id && fresh.pci_address@ == pci_address && fresh.original_driver
                    == original && !fresh.released && match saved {
                    Ok(_) => r == Ok::<NicSnapshot, NetToolError>(fresh),
                    Err(e) => r == Err::<NicSnapshot, NetToolError>(e),
                },
            Err(e) => to == middle && r == Err::<NicSnapshot, NetToolError>(e),
        }
}

/// How an interface is handed to DPDK. It is recorded before it is bound.
pub open spec fn nic_prepared(
    from: Seq<MachineStep>,
    to: Seq<MachineStep>,
    root: Seq<char>,
    operation_id: Seq<char>,
    pci_address: Seq<char>,
    r: Result<ValueResult, NetToolError>,
) -> bool {
    exists|middle: Seq<MachineStep>, recorded: Result<NicSnapshot, NetToolError>| #[trigger]
        nic_recorded(from, middle, root, operation_id, pci_address, recorded) && match recorded {
            Ok(snapshot) => nic_handed_over(middle, to, root, operation_id, pci_address, snapshot, r),
            Err(e) => to == middle && r == Err::<ValueResult, NetToolError>(e),
        }
}

/// How a recorded interface is bound for DPDK.
pub open spec fn nic_handed_over(
    from: Seq<MachineStep>,
    to: Seq<MachineStep>,
    root: Seq<char>,
    operation_id: Seq<char>,
    pci_address: Seq<char>,
    snapshot: NicSnapshot,
    r: Result<ValueResult, NetToolError>,
) -> bool {
    exists|middle: Seq<MachineStep>, done: Result<(), NetToolError>| #[trigger]
        bound(from, middle, root, pci_address, Some(DPDK_DRIVER@), done) && match done {
            Ok(_) => nic_reported(
                middle,
                to,
                record_name("nic"@, operation_id),
                snapshot,
                Some(DPDK_DRIVER@),
                r,
            ),
            Err(e) => to == middle && r == Err::<ValueResult, NetToolError>(e),
        }
}

/// How the record of an interface is kept, and what became of the interface is reported.
pub open spec fn nic_reported(
    from: Seq<MachineStep>,
    to: Seq<MachineStep>,
    name: Seq<char>,
    snapshot: NicSnapshot,
    active: Option<Seq<char>>,
    r: Result<ValueResult, NetToolError>,
) -> bool {
    exists|saved: Result<(), NetToolError>|
        to == #[trigger] from.push(MachineStep::SaveNic(name, snapshot, saved)) && match saved {
            Ok(_) => is_nic_report(text::optional(snapshot.original_driver), active, r),
            Err(e) => r == Err::<ValueResult, NetToolError>(e),
        }
}

/// Whether a report says which driver an interface had and has.
pub open spec fn is_nic_report(
    original: Option<Seq<char>>,
    active: Option<Seq<char>>,
    r: Result<ValueResult, NetToolError>,
) -> bool {
    r matches Ok(v) && text::optional(v.original_driver) == original && text::optional(
        v.active_driver,
    ) == active && v.previous_pages is None && v.active_pages is None
}

/// How an interface is given back: to the driver that was recorded, once.
pub open spec fn nic_restored(
    from: Seq<MachineStep>,
    to: Seq<MachineStep>,
    root: Seq<char>,
    operation_id: Seq<char>,
    pci_address: Seq<char>,
    r: Result<ValueResult, NetToolError>,
) -> bool {
    exists|loaded: Result<NicSnapshot, NetToolError>|
        {
            let behind = #[trigger] from.push(
                MachineStep::LoadNic(record_name("nic"@, operation_id), loaded),
            );
            match loaded {
                Ok(snapshot) => {
                    let original = text::optional(snapshot.original_driver);
                    if snapshot.version != RESOURCE_STATE_VERSION || snapshot.operation_id@
                        != operation_id || snapshot.pci_address@ != pci_address {
                        to == behind && (r matches Err(e) && is_conflict(e))
                    } else if snapshot.released {
                        to == behind && is_nic_report(original, original, r)
                    } else {
                        nic_rebound(behind, to, root, snapshot, r)
                    }
                },
                Err(e) => to == behind && r == Err::<ValueResult, NetToolError>(e),
            }
        }
}

/// How an interface is bound to the driver that was recorded.
pub open spec fn nic_rebound(
    from: Seq<MachineStep>,
    to: Seq<MachineStep>,
    root: Seq<char>,
    snapshot: NicSnapshot,
    r: Result<ValueResult, NetToolError>,
) -> bool {
    exists|middle: Seq<MachineStep>, done: Result<(), NetToolError>| #[trigger]
        bound(
            from,
            middle,
            root,
            snapshot.pci_address@,
            text::optional(snapshot.original_driver),
            done,
        ) && match done {
            Ok(_) => nic_given_back(middle, to, root, snapshot, r),
            Err(e) => to == middle && r == Err::<ValueResult, NetToolError>(e),
        }
}

/// How it is recorded that an interface was given back, once nothing overrides its driver.
pub open spec fn nic_given_back(
    from: Seq<MachineStep>,
    to: Seq<MachineStep>,
    root: Seq<char>,
    snapshot: NicSnapshot,
    r: Result<ValueResult, NetToolError>,
) -> bool {
    let original = text::optional(snapshot.original_driver);
    let path = below(device_path(root, snapshot.pci_address@), "driver_override"@);
    exists|cleared: Result<(), KernelFault>|
        {
            let behind = #[trigger] from.push(
                MachineStep::Write(path, encode_utf8("\n"@), cleared),
            );
            match cleared {
            Ok(_) => nic_reported(
                behind,
                to,
                record_name("nic"@, snapshot.operation_id@),
                NicSnapshot { released: true, ..snapshot },
                original,
                r,
            ),
            Err(fault) => to == behind && (r matches Err(e) && is_kernel_error(
                "clear PCI driver override"@,
                fault,
                e,
            )),
            }
        }
}

/// How a number of huge pages is read.
pub open spec fn count_read(
    from: Seq<MachineStep>,
    to: Seq<MachineStep>,
    path: Seq<char>,
    r: Result<u64, NetToolError>,
) -> bool {
    exists|contents: Result<String, KernelFault>|
        to == #[trigger] from.push(MachineStep::Read(path, contents)) && match contents {
            Ok(printed) => is_count(printed@, r),
            Err(fault) => r matches Err(e) && is_kernel_error("read Huge Page count"@, fault, e),
        }
}

/// How a number of huge pages is written, and read back.
pub open spec fn count_written(
    from: Seq<MachineStep>,
    to: Seq<MachineStep>,
    path: Seq<char>,
    pages: u64,
    r: Result<(), NetToolError>,
) -> bool {
    exists|put: Result<(), KernelFault>|
        {
            let behind = #[trigger] from.push(
                MachineStep::Write(path, encode_utf8(text::decimal(pages as nat)), put),
            );
            match put {
            Ok(_) => exists|seen: Result<u64, NetToolError>| #[trigger]
                count_read(behind, to, path, seen) && match seen {
                    Ok(n) => if n == pages {
                        r is Ok
                    } else {
                        r matches Err(e) && e.is(
                            ErrorCode::HelperExecutionFailed,
                            "Huge Page read-back verification failed"@,
                            false,
                        )
                    },
                    Err(e) => r == Err::<(), NetToolError>(e),
                },
            Err(fault) => to == behind && (r matches Err(e) && is_kernel_error(
                "write Huge Page count"@,
                fault,
                e,
            )),
            }
        }
}

/// How the record of huge pages comes about: the one that there is, if it belongs to the
/// request; otherwise a new one with the number that there is.
pub open spec fn hugepages_recorded(
    from: Seq<MachineStep>,
    to: Seq<MachineStep>,
    path: Seq<char>,
    operation_id: Seq<char>,
    node: Option<u32>,
    pages: u64,
    page_size_kib: u64,
    r: Result<HugepageSnapshot, NetToolError>,
) -> bool {
    exists|found: Result<Option<HugepageSnapshot>, NetToolError>|
        {
            let behind = #[trigger] from.push(
                MachineStep::FindHugepages(record_name("hugepage"@, operation_id), found),
            );
            match found {
            Ok(Some(existing)) => to == behind && exists|decided: Result<(), NetToolError>| #[trigger]
                is_decided(
                    hugepages_requested(existing, operation_id, node, pages, page_size_kib),
                    existing.released,
                    "Huge Page prepare operation was already released"@,
                    decided,
                ) && match decided {
                    Ok(_) => r == Ok::<HugepageSnapshot, NetToolError>(existing),
                    Err(e) => r == Err::<HugepageSnapshot, NetToolError>(e),
                },
            Ok(None) => hugepages_newly_recorded(
                behind,
                to,
                path,
                operation_id,
                node,
                pages,
                page_size_kib,
                r,
            ),
            Err(e) => to == behind && r == Err::<HugepageSnapshot, NetToolError>(e),
            }
        }
}

/// How a new record of huge pages comes about.
pub open spec fn hugepages_newly_recorded(
    from: Seq<MachineStep>,
    to: Seq<MachineStep>,
    path: Seq<char>,
    operation_id: Seq<char>,
    node: Option<u32>,
    pages: u64,
    page_size_kib: u64,
    r: Result<HugepageSnapshot, NetToolError>,
) -> bool {
    exists|middle: Seq<MachineStep>, seen: Result<u64, NetToolError>| #[trigger]
        count_read(from, middle, path, seen) && match seen {
            Ok(previous) => exists|fresh: HugepageSnapshot, saved: Result<(), NetToolError>|
                to == #[trigger] middle.push(
                    MachineStep::SaveHugepages(
                        record_name("hugepage"@, operation_id),
                        fresh,
                        saved,
                    ),
                ) && hugepages_requested(fresh, operation_id, node, pages, page_size_kib)
                    && fresh.version == RESOURCE_STATE_VERSION && fresh.previous_pages == previous
                    && !fresh.released && match saved {
                    Ok(_) => r == Ok::<HugepageSnapshot, NetToolError>(fresh),
                    Err(e) => r == Err::<HugepageSnapshot, NetToolError>(e),
                },
            Err(e) => to == middle && r == Err::<HugepageSnapshot, NetToolError>(e),
        }
}

/// How huge pages are set up. Their number before is recorded before another one is written.
pub open spec fn hugepages_prepared(
    from: Seq<MachineStep>,
    to: Seq<MachineStep>,
    root: Seq<char>,
    operation_id: Seq<char>,
    node: Option<u32>,
    pages: u64,
    page_size_kib: u64,
    r: Result<ValueResult, NetToolError>,
) -> bool {
    let path = hugepage_path(root, node, page_size_kib);
    exists|middle: Seq<MachineStep>, recorded: Result<HugepageSnapshot, NetToolError>| #[trigger]
        hugepages_recorded(
            from,
            middle,
            path,
            operation_id,
            node,
            pages,
            page_size_kib,
            recorded,
        ) && match recorded {
            Ok(snapshot) => hugepages_set(
                middle,
                to,
                path,
                record_name("hugepage"@, operation_id),
                snapshot,
                pages,
                r,
            ),
            Err(e) => to == middle && r == Err::<ValueResult, NetToolError>(e),
        }
}

/// How a number of huge pages is written, and the record that belongs to it kept behind that.
pub open spec fn hugepages_set(
    from: Seq<MachineStep>,
    to: Seq<MachineStep>,
    path: Seq<char>,
    name: Seq<char>,
    record: HugepageSnapshot,
    pages: u64,
    r: Result<ValueResult, NetToolError>,
) -> bool {
    exists|middle: Seq<MachineStep>, done: Result<(), NetToolError>| #[trigger]
        count_written(from, middle, path, pages, done) && match done {
            Ok(_) => hugepages_reported(middle, to, name, record, pages, r),
            Err(e) => to == middle && r == Err::<ValueResult, NetToolError>(e),
        }
}

/// How the record of huge pages is kept, and their number is reported.
pub open spec fn hugepages_reported(
    from: Seq<MachineStep>,
    to: Seq<MachineStep>,
    name: Seq<char>,
    snapshot: HugepageSnapshot,
    active: u64,
    r: Result<ValueResult, NetToolError>,
) -> bool {
    exists|saved: Result<(), NetToolError>|
        to == #[trigger] from.push(MachineStep::SaveHugepages(name, snapshot, saved))
            && match saved {
            Ok(_) => is_hugepage_report(snapshot.previous_pages, active, r),
            Err(e) => r == Err::<ValueResult, NetToolError>(e),
        }
}

/// Whether a report says how many huge pages there were and are.
pub open spec fn is_hugepage_report(
    previous: u64,
    active: u64,
    r: Result<ValueResult, NetToolError>,
) -> bool {
    r matches Ok(v) && v.original_driver is None && v.active_driver is None && v.previous_pages
        == Some(previous) && v.active_pages == Some(active)
}

/// How huge pages are released: to the number that was recorded, once.
pub open spec fn hugepages_released(
    from: Seq<MachineStep>,
    to: Seq<MachineStep>,
    root: Seq<char>,
    operation_id: Seq<char>,
    r: Result<ValueResult, NetToolError>,
) -> bool {
    let name = record_name("hugepage"@, operation_id);
    exists|loaded: Result<HugepageSnapshot, NetToolError>|
        {
            let behind = #[trigger] from.push(MachineStep::LoadHugepages(name, loaded));
            match loaded {
                Ok(snapshot) => {
                    let path = hugepage_path(root, snapshot.node, snapshot.page_size_kib);
                    let previous = snapshot.previous_pages;
                    if snapshot.version != RESOURCE_STATE_VERSION || snapshot.operation_id@
                        != operation_id {
                        to == behind && (r matches Err(e) && is_conflict(e))
                    } else if snapshot.released {
                        to == behind && is_hugepage_report(previous, previous, r)
                    } else {
                        hugepages_set(
                            behind,
                            to,
                            path,
                            name,
                            HugepageSnapshot { released: true, ..snapshot },
                            previous,
                            r,
                        )
                    }
                },
                Err(e) => to == behind && r == Err::<ValueResult, NetToolError>(e),
            }
        }
}

/// Whether nothing was written to the kernel between two points of a log.
pub open spec fn nothing_written(from: Seq<MachineStep>, to: Seq<MachineStep>) -> bool {
    forall|i: int| from.len() <= i < to.len() ==> !((#[trigger] to[i]) is Write)
}

/// Restoring a number of huge pages whose record says that this was done writes nothing to the
/// kernel. What is reported is what was recorded.
pub proof fn law_repeated_release_writes_nothing(
    from: Seq<MachineStep>,
    to: Seq<MachineStep>,
    root: Seq<char>,
    operation_id: Seq<char>,
    snapshot: HugepageSnapshot,
    r: Result<ValueResult, NetToolError>,
)
    requires
        hugepages_released(from, to, root, operation_id, r),
        to.len() > from.len(),
        to[from.len() as int] == MachineStep::LoadHugepages(
            record_name("hugepage"@, operation_id),
            Ok(snapshot),
        ),
        snapshot.released,
    ensures
        to.len() == from.len() + 1,
        nothing_written(from, to),
        r matches Ok(v) ==> v.previous_pages == Some(snapshot.previous_pages) && v.active_pages
            == Some(snapshot.previous_pages),
{
}

/// Giving back an interface whose record says that it was given back, or that belongs to
/// another request, writes nothing to the kernel. What is reported is what was recorded.
pub proof fn law_repeated_restore_writes_nothing(
    from: Seq<MachineStep>,
    to: Seq<MachineStep>,
    root: Seq<char>,
    operation_id: Seq<char>,
    pci_address: Seq<char>,
    snapshot: NicSnapshot,
    r: Result<ValueResult, NetToolError>,
)
    requires
        nic_restored(from, to, root, operation_id, pci_address, r),
        to.len() > from.len(),
        to[from.len() as int] == MachineStep::LoadNic(
            record_name("nic"@, operation_id),
            Ok(snapshot),
        ),
        snapshot.released || snapshot.pci_address@ != pci_address,
    ensures
        to.len() == from.len() + 1,
        nothing_written(from, to),
        r matches Ok(v) ==> text::optional(v.original_driver) == text::optional(
            snapshot.original_driver,
        ) && text::optional(v.active_driver) == text::optional(snapshot.original_driver),
{
    lemma_nic_loaded(from, to, root, operation_id, pci_address, snapshot, r);
}

proof fn lemma_rebound_grows(
    from: Seq<MachineStep>,
    to: Seq<MachineStep>,
    root: Seq<char>,
    snapshot: NicSnapshot,
    r: Result<ValueResult, NetToolError>,
)
    requires
        nic_rebound(from, to, root, snapshot, r),
    ensures
        from.is_prefix_of(to),
{
}

proof fn lemma_nic_loaded(
    from: Seq<MachineStep>,
    to: Seq<MachineStep>,
    root: Seq<char>,
    operation_id: Seq<char>,
    pci_address: Seq<char>,
    snapshot: NicSnapshot,
    r: Result<ValueResult, NetToolError>,
)
    requires
        nic_restored(from, to, root, operation_id, pci_address, r),
        to.len() > from.len(),
        to[from.len() as int] == MachineStep::LoadNic(
            record_name("nic"@, operation_id),
            Ok(snapshot),
        ),
    ensures
        ({
            let loaded = Ok::<NicSnapshot, NetToolError>(snapshot);
            let behind = from.push(
                MachineStep::LoadNic(record_name("nic"@, operation_id), loaded),
            );
            let original = text::optional(snapshot.original_driver);
            if snapshot.version != RESOURCE_STATE_VERSION || snapshot.operation_id@
                != operation_id || snapshot.pci_address@ != pci_address {
                to == behind && (r matches Err(e) && is_conflict(e))
            } else if snapshot.released {
                to == behind && is_nic_report(original, original, r)
            } else {
                nic_rebound(behind, to, root, snapshot, r)
            }
        }),
{
    let name = record_name("nic"@, operation_id);
    let loaded = choose|loaded: Result<NicSnapshot, NetToolError>|
        {
            let behind = #[trigger] from.push(MachineStep::LoadNic(name, loaded));
            match loaded {
                Ok(snapshot) => {
                    let original = text::optional(snapshot.original_driver);
                    if snapshot.version != RESOURCE_STATE_VERSION || snapshot.operation_id@
                        != operation_id || snapshot.pci_address@ != pci_address {
                        to == behind && (r matches Err(e) && is_conflict(e))
                    } else if snapshot.released {
                        to == behind && is_nic_report(original, original, r)
                    } else {
                        nic_rebound(behind, to, root, snapshot, r)
                    }
                },
                Err(e) => to == behind && r == Err::<ValueResult, NetToolError>(e),
            }
        };
    let behind = from.push(MachineStep::LoadNic(name, loaded));
    if loaded is Ok {
        let s = loaded->Ok_0;
        if !(s.version != RESOURCE_STATE_VERSION || s.operation_id@ != operation_id
            || s.pci_address@ != pci_address) && !s.released {
            lemma_rebound_grows(behind, to, root, s, r);
        }
    }
    assert(to[from.len() as int] == behind[from.len() as int]);
}

/// An interface that is given back after it was handed over is bound to the driver that it was
/// found with, where the store answers with the record that was kept last.
pub proof fn law_restore_returns_to_the_driver_found(
    before: Seq<MachineStep>,
    prepared: Seq<MachineStep>,
    later: Seq<MachineStep>,
    restored: Seq<MachineStep>,
    root: Seq<char>,
    operation_id: Seq<char>,
    pci_address: Seq<char>,
    record: NicSnapshot,
    found: ValueResult,
    given_back: ValueResult,
)
    requires
        nic_prepared(before, prepared, root, operation_id, pci_address, Ok(found)),
        nic_restored(later, restored, root, operation_id, pci_address, Ok(given_back)),
        prepared.last() == MachineStep::SaveNic(
            record_name("nic"@, operation_id),
            record,
            Ok(()),
        ),
        restored.len() > later.len(),
        restored[later.len() as int] == MachineStep::LoadNic(
            record_name("nic"@, operation_id),
            Ok(record),
        ),
    ensures
        text::optional(given_back.original_driver) == text::optional(found.original_driver),
        text::optional(given_back.active_driver) == text::optional(found.original_driver),
{
    let r = Ok::<ValueResult, NetToolError>(given_back);
    lemma_nic_loaded(later, restored, root, operation_id, pci_address, record, r);
    let p = Ok::<ValueResult, NetToolError>(found);
    let (middle, recorded) = choose|
        middle: Seq<MachineStep>,
        recorded: Result<NicSnapshot, NetToolError>,
    | #[trigger]
        nic_recorded(before, middle, root, operation_id, pci_address, recorded) && match recorded {
            Ok(snapshot) => nic_handed_over(
                middle,
                prepared,
                root,
                operation_id,
                pci_address,
                snapshot,
                p,
            ),
            Err(e) => prepared == middle && p == Err::<ValueResult, NetToolError>(e),
        };
    assert(recorded->Ok_0 == record);
}

/// Whether a log holds, between two points, the answer that a record of an interface is kept.
pub open spec fn nic_record_kept(
    log: Seq<MachineStep>,
    from: int,
    to: int,
    operation_id: Seq<char>,
) -> bool {
    exists|i: int|
        from <= i < to && match #[trigger] log[i] {
            MachineStep::SaveNic(name, _, Ok(_)) => name == record_name("nic"@, operation_id),
            MachineStep::FindNic(name, Ok(Some(_))) => name == record_name("nic"@, operation_id),
            _ => false,
        }
}

/// Nothing is written to the kernel for an interface of which no record is kept.
pub proof fn law_nic_is_recorded_before_it_is_bound(
    from: Seq<MachineStep>,
    to: Seq<MachineStep>,
    root: Seq<char>,
    operation_id: Seq<char>,
    pci_address: Seq<char>,
    r: Result<ValueResult, NetToolError>,
    i: int,
)
    requires
        nic_prepared(from, to, root, operation_id, pci_address, r),
        from.len() <= i < to.len(),
        to[i] is Write,
    ensures
        nic_record_kept(to, from.len() as int, i, operation_id),
{
    let (middle, recorded) = choose|
        middle: Seq<MachineStep>,
        recorded: Result<NicSnapshot, NetToolError>,
    | #[trigger]
        nic_recorded(from, middle, root, operation_id, pci_address, recorded) && match recorded {
            Ok(snapshot) => nic_handed_over(middle, to, root, operation_id, pci_address, snapshot, r),
            Err(e) => to == middle && r == Err::<ValueResult, NetToolError>(e),
        };
    assert(nothing_written(from, middle));
    if recorded is Ok {
        assert(middle.is_prefix_of(to));
        assert(middle.len() > from.len());
        let last = middle.len() - 1;
        assert(to[last] == middle[last]);
        assert(i > last);
    }
}

/// A number of huge pages that the kernel keeps as it was written is read back as that number.
pub proof fn law_written_count_reads_back(pages: u64, r: Result<u64, NetToolError>)
    requires
        is_count(text::decimal(pages as nat), r),
    ensures
        r == Ok::<u64, NetToolError>(pages),
{
    let s = text::decimal(pages as nat);
    text::lemma_decimal_round_trip(pages as nat, u64::MAX as nat);
    text::lemma_decimal_value(pages as nat);
    assert(text::is_digit(s[0]));
    assert(text::is_digit(s[s.len() - 1]));
    assert(text::trimmed(s) == s);
}

// ---------------------------------------------------------------------------------- executor

/// Hands interfaces to DPDK and sets up huge pages.
pub struct LinuxResourceExecutor<K, S> {
    machine: Machine<K, S>,
    sysfs_root: String,
}

impl<K: KernelAccess, S: ResourceStore> LinuxResourceExecutor<K, S> {
    /// Where the files of the kernel are.
    pub closed spec fn root(self) -> Seq<char> {
        self.sysfs_root@
    }

    /// The calls that were made of the kernel and the store.
    pub closed spec fn log(self) -> Seq<MachineStep> {
        self.machine.log()
    }

    /// Creates an executor. Both directories have to be absolute.
    ///
    /// # Errors
    ///
    /// Fails when one of them is not.
    pub fn new(kernel: K, store: S, sysfs_root: &str, state_directory: &str) -> (r: Result<
        Self,
        NetToolError,
    >)
        ensures
            match r {
                Ok(executor) => {
                    &&& text::has_prefix(sysfs_root@, "/"@)
                    &&& text::has_prefix(state_directory@, "/"@)
                    &&& executor.root() == sysfs_root@
                    &&& executor.log() == Seq::<MachineStep>::empty()
                },
                Err(e) => !(text::has_prefix(sysfs_root@, "/"@) && text::has_prefix(
                    state_directory@,
                    "/"@,
                )) && e.is(
                    ErrorCode::InvalidArgument,
                    "resource executor paths must be absolute"@,
                    false,
                ),
            },
    {
        if !starts_with(sysfs_root, "/") || !starts_with(state_directory, "/") {
            return Err(
                NetToolError::new(
                    ErrorCode::InvalidArgument,
                    "resource executor paths must be absolute",
                    false,
                ),
            );
        }
        Ok(
            LinuxResourceExecutor {
                machine: Machine::new(kernel, store),
                sysfs_root: sysfs_root.to_owned(),
            },
        )
    }

    fn current_driver(&mut self, pci_address: &str) -> (r: Result<Option<String>, NetToolError>)
        ensures
            final(self).root() == old(self).root(),
            driver_read(old(self).log(), final(self).log(), old(self).root(), pci_address@, r),
    {
        let device = path_of_device(self.sysfs_root.as_str(), pci_address);
        let path = join_path(device.as_str(), "driver");
        let link = self.machine.read_link(path.as_str());
        driver_from_link(link)
    }

    fn write_text(&mut self, path: &str, value: &str) -> (r: Result<(), KernelFault>)
        ensures
            final(self).root() == old(self).root(),
            final(self).log() == old(self).log().push(
                MachineStep::Write(path@, encode_utf8(value@), r),
            ),
    {
        let bytes = value.as_bytes();
        self.machine.write(path, bytes)
    }

    /// Binds a device. Whatever the kernel does, success means that it then said that the
    /// device is bound as asked for.
    fn bind_driver(&mut self, pci_address: &str, target: &Option<String>) -> (r: Result<
        (),
        NetToolError,
    >)
        ensures
            final(self).root() == old(self).root(),
            bound(old(self).log(), final(self).log(), old(self).root(), pci_address@, text::optional(*target), r),
    {
        let first = self.current_driver(pci_address);
        let current = match first {
            Ok(current) => current,
            Err(e) => {
                return Err(e);
            },
        };
        if same_optional(&current, target) {
            return Ok(());
        }
        let r = self.rebind_driver(pci_address, &current, target);
        r
    }

    fn rebind_driver(
        &mut self,
        pci_address: &str,
        current: &Option<String>,
        target: &Option<String>,
    ) -> (r: Result<(), NetToolError>)
        ensures
            final(self).root() == old(self).root(),
            rebound(
                old(self).log(),
                final(self).log(),
                old(self).root(),
                pci_address@,
                text::optional(*current),
                text::optional(*target),
                r,
            ),
    {
        let writes = plan_binding(self.sysfs_root.as_str(), pci_address, current, target);
        let ghost planned = write_views(writes@);
        let ghost mut answers: Seq<Result<(), KernelFault>> = Seq::empty();
        let mut i: usize = 0;
        while i < writes.len()
            invariant
                i <= writes@.len(),
                planned == write_views(writes@),
                planned == binding_writes(
                    old(self).root(),
                    pci_address@,
                    text::optional(*current),
                    text::optional(*target),
                ),
                answers.len() == i,
                forall|k: int| 0 <= k < i ==> (#[trigger] answers[k]) is Ok,
                self.log() == old(self).log() + writes_of(planned, answers),
                self.root() == old(self).root(),
            decreases writes@.len() - i,
        {
            proof {
                assert(planned[i as int] == (
                    writes@[i as int].path@,
                    writes@[i as int].value@,
                    writes@[i as int].context@,
                ));
            }
            let answer = self.write_text(writes[i].path.as_str(), writes[i].value.as_str());
            proof {
                answers = answers.push(answer);
                assert(self.log() =~= old(self).log() + writes_of(planned, answers));
            }
            match answer {
                Ok(_) => {},
                Err(fault) => {
                    let error = kernel_error(writes[i].context, &fault);
                    proof {
                        assert(written(old(self).log(), self.log(), planned, answers));
                    }
                    return Err(error);
                },
            }
            i += 1;
        }
        let ghost behind = self.log();
        let second = self.current_driver(pci_address);
        let ghost after = second;
        let r = match second {
            Ok(actual) => check_binding(&actual, target),
            Err(e) => Err(e),
        };
        proof {
            assert(driver_read(behind, self.log(), self.root(), pci_address@, after));
            assert(written(old(self).log(), behind, planned, answers));
        }
        r
    }

    fn record_nic(&mut self, name: &str, operation_id: &str, pci_address: &str) -> (r: Result<
        NicSnapshot,
        NetToolError,
    >)
        requires
            name@ == record_name("nic"@, operation_id@),
        ensures
            final(self).root() == old(self).root(),
            nic_recorded(old(self).log(), final(self).log(), old(self).root(), operation_id@, pci_address@, r),
    {
        let found = self.machine.find_nic(name);
        match found {
            Ok(Some(existing)) => {
                let decided = accept_nic_record(&existing, operation_id, pci_address);
                let ghost verdict = decided;
                let ghost old_record = existing;
                let r = match decided {
                    Ok(_) => Ok(existing),
                    Err(e) => Err(e),
                };
                proof {
                    assert(is_decided(
                        nic_requested(old_record, operation_id@, pci_address@),
                        old_record.released,
                        "NIC prepare operation was already released"@,
                        verdict,
                    ));
                }
                r
            },
            Ok(None) => {
                let r = self.record_new_nic(name, operation_id, pci_address);
                r
            },
            Err(e) => {
                Err(e)
            },
        }
    }

    fn record_new_nic(&mut self, name: &str, operation_id: &str, pci_address: &str) -> (r: Result<
        NicSnapshot,
        NetToolError,
    >)
        requires
            name@ == record_name("nic"@, operation_id@),
        ensures
            final(self).root() == old(self).root(),
            nic_newly_recorded(old(self).log(), final(self).log(), old(self).root(), operation_id@, pci_address@, r),
    {
        let driver = self.current_driver(pci_address);
        let original_driver = match driver {
            Ok(driver) => driver,
            Err(e) => {
                return Err(e);
            },
        };
        let fresh = NicSnapshot {
            version: RESOURCE_STATE_VERSION,
            operation_id: operation_id.to_owned(),
            pci_address: pci_address.to_owned(),
            original_driver,
            released: false,
        };
        let saved = self.machine.save_nic(name, &fresh);
        let r = match saved {
            Ok(_) => Ok(fresh),
            Err(e) => Err(e),
        };
        r
    }

    fn report_nic(&mut self, name: &str, snapshot: NicSnapshot, active: Option<String>) -> (r:
        Result<ValueResult, NetToolError>)
        ensures
            final(self).root() == old(self).root(),
            nic_reported(old(self).log(), final(self).log(), name@, snapshot, text::optional(active), r),
    {
        let saved = self.machine.save_nic(name, &snapshot);
        let r = match saved {
            Ok(_) => Ok(
                ValueResult {
                    original_driver: snapshot.original_driver,
                    active_driver: active,
                    previous_pages: None,
                    active_pages: None,
                },
            ),
            Err(e) => Err(e),
        };
        r
    }

    /// Hands an interface to DPDK. Its driver is recorded first.
    ///
    /// # Errors
    ///
    /// Fails when the address is not one, when the operation was used for another interface
    /// or has ended, and when kernel or store fail. What these return is up to them; whatever
    /// it is, an address that is not one reaches neither of them.
    pub fn prepare_dpdk(&mut self, operation_id: &str, pci_address: &str) -> (r: Result<
        ValueResult,
        NetToolError,
    >)
        ensures
            final(self).root() == old(self).root(),
            if environment::pci_form(pci_address@) {
                nic_prepared(old(self).log(), final(self).log(), old(self).root(), operation_id@, pci_address@, r)
            } else {
                &&& *final(self) == *old(self)
                &&& r matches Err(e) && e.is(
                    ErrorCode::InvalidArgument,
                    "PCI address must use dddd:bb:ss.f format"@,
                    false,
                )
            },
    {
        match validate_pci_address(pci_address) {
            Ok(_) => {},
            Err(e) => {
                return Err(e);
            },
        }
        let name = name_of_record("nic", operation_id);
        let recorded = self.record_nic(name.as_str(), operation_id, pci_address);
        let snapshot = match recorded {
            Ok(snapshot) => snapshot,
            Err(e) => {
                return Err(e);
            },
        };
        let target: Option<String> = Some(DPDK_DRIVER.to_owned());
        let done = self.bind_driver(pci_address, &target);
        let r = match done {
            Ok(_) => self.report_nic(name.as_str(), snapshot, target),
            Err(e) => Err(e),
        };
        r
    }

    /// Gives an interface back to the driver that was recorded, whatever the caller says.
    /// Giving it back again does nothing.
    ///
    /// # Errors
    ///
    /// Fails when the address is not one, when the record belongs to another operation or
    /// interface, and when kernel or store fail. What these return is up to them; whatever it
    /// is, the driver that is reported is the recorded one.
    pub fn restore_driver(&mut self, prepare_operation_id: &str, pci_address: &str) -> (r: Result<
        ValueResult,
        NetToolError,
    >)
        ensures
            final(self).root() == old(self).root(),
            if environment::pci_form(pci_address@) {
                nic_restored(old(self).log(), final(self).log(), old(self).root(), prepare_operation_id@, pci_address@, r)
            } else {
                &&& *final(self) == *old(self)
                &&& r matches Err(e) && e.is(
                    ErrorCode::InvalidArgument,
                    "PCI address must use dddd:bb:ss.f format"@,
                    false,
                )
            },
    {
        match validate_pci_address(pci_address) {
            Ok(_) => {},
            Err(e) => {
                return Err(e);
            },
        }
        let name = name_of_record("nic", prepare_operation_id);
        let loaded = self.machine.load_nic(name.as_str());
        let snapshot = match loaded {
            Ok(snapshot) => snapshot,
            Err(e) => {
                return Err(e);
            },
        };
        match accept_nic_restore(&snapshot, prepare_operation_id, pci_address) {
            Ok(_) => {},
            Err(e) => {
                return Err(e);
            },
        }
        let target = copy_optional(&snapshot.original_driver);
        if snapshot.released {
            return Ok(
                ValueResult {
                    original_driver: target,
                    active_driver: snapshot.original_driver,
                    previous_pages: None,
                    active_pages: None,
                },
            );
        }
        let done = self.bind_driver(pci_address, &target);
        let r = match done {
            Ok(_) => self.give_back_nic(name.as_str(), snapshot),
            Err(e) => Err(e),
        };
        r
    }

    fn give_back_nic(&mut self, name: &str, snapshot: NicSnapshot) -> (r: Result<
        ValueResult,
        NetToolError,
    >)
        requires
            name@ == record_name("nic"@, snapshot.operation_id@),
        ensures
            final(self).root() == old(self).root(),
            nic_given_back(old(self).log(), final(self).log(), old(self).root(), snapshot, r),
    {
        let device = path_of_device(self.sysfs_root.as_str(), snapshot.pci_address.as_str());
        let path = join_path(device.as_str(), "driver_override");
        let cleared = self.write_text(path.as_str(), "\n");
        let r = match cleared {
            Ok(_) => {
                let target = copy_optional(&snapshot.original_driver);
                let mut record = snapshot;
                record.released = true;
                self.report_nic(name, record, target)
            },
            Err(fault) => Err(kernel_error("clear PCI driver override", &fault)),
        };
        r
    }

    fn read_count(&mut self, path: &str) -> (r: Result<u64, NetToolError>)
        ensures
            final(self).root() == old(self).root(),
            count_read(old(self).log(), final(self).log(), path@, r),
    {
        let contents = self.machine.read_to_string(path);
        match contents {
            Ok(printed) => parse_count(printed.as_str()),
            Err(fault) => Err(kernel_error("read Huge Page count", &fault)),
        }
    }

    fn write_count(&mut self, path: &str, pages: u64) -> (r: Result<(), NetToolError>)
        ensures
            final(self).root() == old(self).root(),
            count_written(old(self).log(), final(self).log(), path@, pages, r),
    {
        let put = self.write_text(path, decimal_text(pages).as_str());
        match put {
            Ok(_) => {},
            Err(fault) => {
                let error = kernel_error("write Huge Page count", &fault);
                return Err(error);
            },
        }
        let seen = self.read_count(path);
        let ghost read = seen;
        let r = match seen {
            Ok(n) => if n != pages {
                Err(execution_error("Huge Page read-back verification failed"))
            } else {
                Ok(())
            },
            Err(e) => Err(e),
        };
        r
    }

    fn record_hugepages(
        &mut self,
        path: &str,
        operation_id: &str,
        node: Option<u32>,
        pages: u64,
        page_size_kib: u64,
    ) -> (r: Result<HugepageSnapshot, NetToolError>)
        ensures
            final(self).root() == old(self).root(),
            hugepages_recorded(old(self).log(), final(self).log(), path@, operation_id@, node, pages, page_size_kib, r),
    {
        let name = name_of_record("hugepage", operation_id);
        let found = self.machine.find_hugepages(name.as_str());
        match found {
            Ok(Some(existing)) => {
                let decided = accept_hugepage_record(
                    &existing,
                    operation_id,
                    node,
                    pages,
                    page_size_kib,
                );
                let ghost verdict = decided;
                let ghost old_record = existing;
                let r = match decided {
                    Ok(_) => Ok(existing),
                    Err(e) => Err(e),
                };
                proof {
                    assert(is_decided(
                        hugepages_requested(old_record, operation_id@, node, pages, page_size_kib),
                        old_record.released,
                        "Huge Page prepare operation was already released"@,
                        verdict,
                    ));
                }
                r
            },
            Ok(None) => {
                let r = self.record_new_hugepages(path, operation_id, node, pages, page_size_kib);
                r
            },
            Err(e) => {
                Err(e)
            },
        }
    }

    fn record_new_hugepages(
        &mut self,
        path: &str,
        operation_id: &str,
        node: Option<u32>,
        pages: u64,
        page_size_kib: u64,
    ) -> (r: Result<HugepageSnapshot, NetToolError>)
        ensures
            final(self).root() == old(self).root(),
            hugepages_newly_recorded(old(self).log(), final(self).log(), path@, operation_id@, node, pages, page_size_kib, r),
    {
        let name = name_of_record("hugepage", operation_id);
        let seen = self.read_count(path);
        let previous_pages: u64 = match seen {
            Ok(n) => n,
            Err(e) => {
                return Err(e);
            },
        };
        let fresh = HugepageSnapshot {
            version: RESOURCE_STATE_VERSION,
            operation_id: operation_id.to_owned(),
            node,
            page_size_kib,
            previous_pages,
            requested_pages: pages,
            released: false,
        };
        let saved = self.machine.save_hugepages(name.as_str(), &fresh);
        let r = match saved {
            Ok(_) => Ok(fresh),
            Err(e) => Err(e),
        };
        r
    }

    fn report_hugepages(&mut self, name: &str, snapshot: HugepageSnapshot, active: u64) -> (r:
        Result<ValueResult, NetToolError>)
        ensures
            final(self).root() == old(self).root(),
            hugepages_reported(old(self).log(), final(self).log(), name@, snapshot, active, r),
    {
        let saved = self.machine.save_hugepages(name, &snapshot);
        match saved {
            Ok(_) => Ok(
                ValueResult {
                    original_driver: None,
                    active_driver: None,
                    previous_pages: Some(snapshot.previous_pages),
                    active_pages: Some(active),
                },
            ),
            Err(e) => Err(e),
        }
    }

    /// Sets up huge pages. Their number before is recorded first.
    ///
    /// # Errors
    ///
    /// Fails when the number is outside the limit, when the operation was used for another
    /// request or has ended, and when kernel or store fail. What these return is up to them;
    /// whatever it is, a number outside the limit reaches neither of them.
    pub fn prepare_hugepages(
        &mut self,
        operation_id: &str,
        node: Option<u32>,
        pages: u64,
        page_size_kib: u64,
    ) -> (r: Result<ValueResult, NetToolError>)
        ensures
            final(self).root() == old(self).root(),
            if helper_protocol::hugepage_fault(pages, page_size_kib) is None {
                hugepages_prepared(
                    old(self).log(),
                    final(self).log(),
                    old(self).root(),
                    operation_id@,
                    node,
                    pages,
                    page_size_kib,
                    r,
                )
            } else {
                &&& *final(self) == *old(self)
                &&& r matches Err(e) && e.is(
                    ErrorCode::InvalidArgument,
                    "Huge Page request is outside the safety limit"@,
                    false,
                )
            },
    {
        match validate_hugepages(pages, page_size_kib) {
            Ok(_) => {},
            Err(e) => {
                return Err(e);
            },
        }
        let path = path_of_hugepages(self.sysfs_root.as_str(), node, page_size_kib);
        let recorded = self.record_hugepages(
            path.as_str(),
            operation_id,
            node,
            pages,
            page_size_kib,
        );
        let snapshot = match recorded {
            Ok(snapshot) => snapshot,
            Err(e) => {
                return Err(e);
            },
        };
        let done = self.write_count(path.as_str(), pages);
        let r = match done {
            Ok(_) => self.report_hugepages(
                name_of_record("hugepage", operation_id).as_str(),
                snapshot,
                pages,
            ),
            Err(e) => Err(e),
        };
        r
    }

    /// Restores the number of huge pages that was recorded. Doing so again does nothing.
    ///
    /// # Errors
    ///
    /// Fails when the record belongs to another operation, and when kernel or store fail.
    /// What these return is up to them; whatever it is, the number that is reported is the
    /// recorded one.
    pub fn release_hugepages(&mut self, prepare_operation_id: &str) -> (r: Result<
        ValueResult,
        NetToolError,
    >)
        ensures
            final(self).root() == old(self).root(),
            hugepages_released(old(self).log(), final(self).log(), old(self).root(), prepare_operation_id@, r),
    {
        let name = name_of_record("hugepage", prepare_operation_id);
        let loaded = self.machine.load_hugepages(name.as_str());
        let snapshot = match loaded {
            Ok(snapshot) => snapshot,
            Err(e) => {
                return Err(e);
            },
        };
        match accept_hugepage_release(&snapshot, prepare_operation_id) {
            Ok(_) => {},
            Err(e) => {
                return Err(e);
            },
        }
        let path = path_of_hugepages(
            self.sysfs_root.as_str(),
            snapshot.node,
            snapshot.page_size_kib,
        );
        let previous: u64 = snapshot.previous_pages;
        if snapshot.released {
            return Ok(
                ValueResult {
                    original_driver: None,
                    active_driver: None,
                    previous_pages: Some(previous),
                    active_pages: Some(previous),
                },
            );
        }
        let done = self.write_count(path.as_str(), previous);
        let r = match done {
            Ok(_) => {
                let mut record = snapshot;
                record.released = true;
                self.report_hugepages(name.as_str(), record, previous)
            },
            Err(e) => Err(e),
        };
        r
    }
}

} // verus!
