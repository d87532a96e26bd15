//! TUN interfaces on Linux (`ip`) and macOS (`ifconfig`), and the
//! platform's choice among them and the Windows Wintun backend.

use std::sync::Arc;

use vstd::prelude::*;

use crate::command::{checked_step, plan_view, push_arg, push_string_arg, run_plan, run_step, runs, string_views, CommandExecutor, PlanStep, Reading, Step};
use crate::error::{is_invalid_input, CoreError};
use crate::text::{chars_of, concat2, decimal, decimal_exec, eq_str, owned};
use crate::types::Platform;
use crate::wg::{cidr_text, cidr_to_string, DeviceAddress, IpAddress, TunBackend};
use crate::windows::{netsh_address_steps, netsh_admin_args, netsh_mtu_args, WindowsWintunBackend};

verus! {

/// Creates the device node of a named TUN interface. The error is the
/// platform's message.
pub trait TunDeviceOpener {
    fn create(&self, name: &str) -> Result<(), String>;
}

/// `ip link set dev <iface> up|down`
pub open spec fn ip_updown_args(iface: Seq<char>, up: bool) -> Seq<Seq<char>> {
    seq!["link"@, "set"@, "dev"@, iface, if up {
        "up"@
    } else {
        "down"@
    }]
}

/// `ip link set dev <iface> mtu <mtu>`
pub open spec fn ip_mtu_args(iface: Seq<char>, mtu: u32) -> Seq<Seq<char>> {
    seq!["link"@, "set"@, "dev"@, iface, "mtu"@, decimal(mtu as nat)]
}

/// `ip [-6] addr replace <cidr> dev <iface>`
pub open spec fn ip_addr_args(v6: bool, cidr: Seq<char>, iface: Seq<char>) -> Seq<Seq<char>> {
    (if v6 {
        seq!["-6"@]
    } else {
        seq![]
    }) + seq!["addr"@, "replace"@, cidr, "dev"@, iface]
}

/// `ifconfig <iface> up|down`
pub open spec fn ifconfig_updown_args(iface: Seq<char>, up: bool) -> Seq<Seq<char>> {
    seq![iface, if up {
        "up"@
    } else {
        "down"@
    }]
}

/// `ifconfig <iface> mtu <mtu>`
pub open spec fn ifconfig_mtu_args(iface: Seq<char>, mtu: u32) -> Seq<Seq<char>> {
    seq![iface, "mtu"@, decimal(mtu as nat)]
}

/// `ifconfig <iface> inet <cidr> alias` or `ifconfig <iface> inet6 <cidr> add`
pub open spec fn ifconfig_addr_args(v6: bool, cidr: Seq<char>, iface: Seq<char>) -> Seq<Seq<char>> {
    if v6 {
        seq![iface, "inet6"@, cidr, "add"@]
    } else {
        seq![iface, "inet"@, cidr, "alias"@]
    }
}

/// Assigning the addresses with `program`: the IPv4 one, then the IPv6
/// one, each checked; `args` gives the arguments for one address.
pub open spec fn address_steps(
    program: Seq<char>,
    args: spec_fn(bool, Seq<char>) -> Seq<Seq<char>>,
    v4: Option<(u32, u8)>,
    v6: Option<(u128, u8)>,
) -> Seq<Step> {
    (match v4 {
        Some((a, p)) => seq![checked_step(program, args(false, cidr_text(IpAddress::V4(a), p)))],
        None => seq![],
    }) + match v6 {
        Some((a, p)) => seq![checked_step(program, args(true, cidr_text(IpAddress::V6(a), p)))],
        None => seq![],
    }
}

/// `ip [-6] addr replace` for each address of `iface`.
pub open spec fn ip_address_steps(iface: Seq<char>, v4: Option<(u32, u8)>, v6: Option<(u128, u8)>) -> Seq<Step> {
    address_steps("ip"@, |v6: bool, cidr: Seq<char>| ip_addr_args(v6, cidr, iface), v4, v6)
}

/// `ifconfig <iface> inet|inet6 ...` for each address of `iface`.
pub open spec fn ifconfig_address_steps(iface: Seq<char>, v4: Option<(u32, u8)>, v6: Option<(u128, u8)>) -> Seq<
    Step,
> {
    address_steps("ifconfig"@, |v6: bool, cidr: Seq<char>| ifconfig_addr_args(v6, cidr, iface), v4, v6)
}

/// Arguments of `ip link set dev <iface> up|down`.
pub fn ip_updown_cmd(iface: &str, up: bool) -> (r: Vec<String>)
    ensures
        string_views(r@) == ip_updown_args(iface@, up),
{
    let mut args: Vec<String> = Vec::new();
    push_arg(&mut args, "link");
    push_arg(&mut args, "set");
    push_arg(&mut args, "dev");
    push_arg(&mut args, iface);
    push_arg(&mut args, if up {
        "up"
    } else {
        "down"
    });
    assert(string_views(args@) =~= ip_updown_args(iface@, up));
    args
}

/// Arguments of `ip link set dev <iface> mtu <mtu>`.
pub fn ip_mtu_cmd(iface: &str, mtu: u32) -> (r: Vec<String>)
    ensures
        string_views(r@) == ip_mtu_args(iface@, mtu),
{
    let mut args: Vec<String> = Vec::new();
    push_arg(&mut args, "link");
    push_arg(&mut args, "set");
    push_arg(&mut args, "dev");
    push_arg(&mut args, iface);
    push_arg(&mut args, "mtu");
    push_string_arg(&mut args, decimal_exec(mtu as u64));
    assert(string_views(args@) =~= ip_mtu_args(iface@, mtu));
    args
}

/// Arguments of `ip [-6] addr replace <cidr> dev <iface>`.
pub fn ip_addr_cmd(v6: bool, cidr: &str, iface: &str) -> (r: Vec<String>)
    ensures
        string_views(r@) == ip_addr_args(v6, cidr@, iface@),
{
    let mut args: Vec<String> = Vec::new();
    if v6 {
        push_arg(&mut args, "-6");
    }
    push_arg(&mut args, "addr");
    push_arg(&mut args, "replace");
    push_arg(&mut args, cidr);
    push_arg(&mut args, "dev");
    push_arg(&mut args, iface);
    assert(string_views(args@) =~= ip_addr_args(v6, cidr@, iface@));
    args
}

/// Arguments of `ifconfig <iface> up|down`.
pub fn ifconfig_updown_cmd(iface: &str, up: bool) -> (r: Vec<String>)
    ensures
        string_views(r@) == ifconfig_updown_args(iface@, up),
{
    let mut args: Vec<String> = Vec::new();
    push_arg(&mut args, iface);
    push_arg(&mut args, if up {
        "up"
    } else {
        "down"
    });
    assert(string_views(args@) =~= ifconfig_updown_args(iface@, up));
    args
}

/// Arguments of `ifconfig <iface> mtu <mtu>`.
pub fn ifconfig_mtu_cmd(iface: &str, mtu: u32) -> (r: Vec<String>)
    ensures
        string_views(r@) == ifconfig_mtu_args(iface@, mtu),
{
    let mut args: Vec<String> = Vec::new();
    push_arg(&mut args, iface);
    push_arg(&mut args, "mtu");
    push_string_arg(&mut args, decimal_exec(mtu as u64));
    assert(string_views(args@) =~= ifconfig_mtu_args(iface@, mtu));
    args
}

/// Arguments that add an address with `ifconfig`.
pub fn ifconfig_addr_cmd(v6: bool, cidr: &str, iface: &str) -> (r: Vec<String>)
    ensures
        string_views(r@) == ifconfig_addr_args(v6, cidr@, iface@),
{
    let mut args: Vec<String> = Vec::new();
    push_arg(&mut args, iface);
    if v6 {
        push_arg(&mut args, "inet6");
        push_arg(&mut args, cidr);
        push_arg(&mut args, "add");
    } else {
        push_arg(&mut args, "inet");
        push_arg(&mut args, cidr);
        push_arg(&mut args, "alias");
    }
    assert(string_views(args@) =~= ifconfig_addr_args(v6, cidr@, iface@));
    args
}

fn open_checked<O: TunDeviceOpener>(opener: &O, iface: &str, name: &str) -> (r: Result<(), CoreError>)
    ensures
        name@ != iface@ ==> (r matches Err(e) && is_invalid_input(e, "iface name mismatch"@)),
{
    if !eq_str(&chars_of(name), iface) {
        return Err(CoreError::InvalidInput(owned("iface name mismatch")));
    }
    match opener.create(name) {
        Ok(()) => Ok(()),
        Err(m) => Err(CoreError::Other(concat2("tun create failed: ", m.as_str()))),
    }
}

/// A Linux TUN interface, configured with `ip`.
pub struct LinuxIpTunBackend<E: CommandExecutor, O: TunDeviceOpener> {
    runner: Arc<E>,
    opener: Arc<O>,
    iface: String,
}

impl<E: CommandExecutor, O: TunDeviceOpener> LinuxIpTunBackend<E, O> {
    pub fn new(executor: Arc<E>, opener: Arc<O>, iface: String) -> (r: Self)
        ensures
            r.executor() == *executor,
            r.iface_name() == iface@,
    {
        LinuxIpTunBackend { runner: executor, opener, iface }
    }

    /// The executor that runs the commands.
    pub closed spec fn executor(&self) -> E {
        *self.runner
    }

    /// The interface name.
    pub closed spec fn iface_name(&self) -> Seq<char> {
        self.iface@
    }

    /// The interface name.
    pub fn ifname(&self) -> (r: Result<&str, CoreError>)
        ensures
            r matches Ok(n) && n@ == self.iface_name(),
    {
        Ok(self.iface.as_str())
    }
}

impl<E: CommandExecutor, O: TunDeviceOpener> TunBackend for LinuxIpTunBackend<E, O> {
    /// Creates the device, which must be this backend's interface.
    fn open(&self, name: &str) -> (r: Result<(), CoreError>)
        ensures
            name@ != self.iface_name() ==> (r matches Err(e) && is_invalid_input(e, "iface name mismatch"@)),
    {
        open_checked(&*self.opener, self.iface.as_str(), name)
    }

    /// `ip link set dev <iface> up`
    fn up(&self) -> (r: Result<(), CoreError>)
        ensures
            runs(&self.executor(), seq![checked_step("ip"@, ip_updown_args(self.iface_name(), true))], r),
    {
        run_step(&*self.runner, "ip", ip_updown_cmd(self.iface.as_str(), true), Reading::Checked)
    }

    /// `ip link set dev <iface> down`
    fn down(&self) -> (r: Result<(), CoreError>)
        ensures
            runs(&self.executor(), seq![checked_step("ip"@, ip_updown_args(self.iface_name(), false))], r),
    {
        run_step(&*self.runner, "ip", ip_updown_cmd(self.iface.as_str(), false), Reading::Checked)
    }

    /// `ip link set dev <iface> mtu <mtu>`
    fn set_mtu(&self, mtu: u32) -> (r: Result<(), CoreError>)
        ensures
            runs(&self.executor(), seq![checked_step("ip"@, ip_mtu_args(self.iface_name(), mtu))], r),
    {
        run_step(&*self.runner, "ip", ip_mtu_cmd(self.iface.as_str(), mtu), Reading::Checked)
    }

    /// Replaces the IPv4 address, then the IPv6 address, stopping at the
    /// first failure.
    fn set_address(&self, address: &DeviceAddress) -> (r: Result<(), CoreError>)
        ensures
            runs(&self.executor(), ip_address_steps(self.iface_name(), address.v4, address.v6), r),
    {
        let name = self.iface.as_str();
        let mut plan: Vec<PlanStep> = Vec::new();
        match address.v4 {
            Some((addr, prefix)) => {
                let cidr = cidr_to_string(IpAddress::V4(addr), prefix);
                plan.push(PlanStep::Run("ip", ip_addr_cmd(false, cidr.as_str(), name), Reading::Checked));
            },
            None => {},
        }
        match address.v6 {
            Some((addr, prefix)) => {
                let cidr = cidr_to_string(IpAddress::V6(addr), prefix);
                plan.push(PlanStep::Run("ip", ip_addr_cmd(true, cidr.as_str(), name), Reading::Checked));
            },
            None => {},
        }
        assert(plan_view(plan@) =~= ip_address_steps(self.iface_name(), address.v4, address.v6));
        run_plan(&*self.runner, &plan)
    }
}

/// A macOS utun interface, configured with `ifconfig`.
pub struct MacOsUtunBackend<E: CommandExecutor, O: TunDeviceOpener> {
    runner: Arc<E>,
    opener: Arc<O>,
    name: String,
}

impl<E: CommandExecutor, O: TunDeviceOpener> MacOsUtunBackend<E, O> {
    pub fn new(executor: Arc<E>, opener: Arc<O>, name: String) -> (r: Self)
        ensures
            r.executor() == *executor,
            r.iface_name() == name@,
    {
        MacOsUtunBackend { runner: executor, opener, name }
    }

    /// The executor that runs the commands.
    pub closed spec fn executor(&self) -> E {
        *self.runner
    }

    /// The interface name.
    pub closed spec fn iface_name(&self) -> Seq<char> {
        self.name@
    }

    /// The interface name.
    pub fn ifname(&self) -> (r: &str)
        ensures
            r@ == self.iface_name(),
    {
        self.name.as_str()
    }
}

impl<E: CommandExecutor, O: TunDeviceOpener> TunBackend for MacOsUtunBackend<E, O> {
    /// Creates the device, which must be this backend's interface.
    fn open(&self, name: &str) -> (r: Result<(), CoreError>)
        ensures
            name@ != self.iface_name() ==> (r matches Err(e) && is_invalid_input(e, "iface name mismatch"@)),
    {
        open_checked(&*self.opener, self.name.as_str(), name)
    }

    /// `ifconfig <iface> up`
    fn up(&self) -> (r: Result<(), CoreError>)
        ensures
            runs(&self.executor(), seq![checked_step("ifconfig"@, ifconfig_updown_args(self.iface_name(), true))], r),
    {
        run_step(&*self.runner, "ifconfig", ifconfig_updown_cmd(self.ifname(), true), Reading::Checked)
    }

    /// `ifconfig <iface> down`
    fn down(&self) -> (r: Result<(), CoreError>)
        ensures
            runs(&self.executor(), seq![checked_step("ifconfig"@, ifconfig_updown_args(self.iface_name(), false))], r),
    {
        run_step(&*self.runner, "ifconfig", ifconfig_updown_cmd(self.ifname(), false), Reading::Checked)
    }

    /// `ifconfig <iface> mtu <mtu>`
    fn set_mtu(&self, mtu: u32) -> (r: Result<(), CoreError>)
        ensures
            runs(&self.executor(), seq![checked_step("ifconfig"@, ifconfig_mtu_args(self.iface_name(), mtu))], r),
    {
        run_step(&*self.runner, "ifconfig", ifconfig_mtu_cmd(self.ifname(), mtu), Reading::Checked)
    }

    /// Adds the IPv4 address as an alias, then the IPv6 address, stopping
    /// at the first failure.
    fn set_address(&self, address: &DeviceAddress) -> (r: Result<(), CoreError>)
        ensures
            runs(&self.executor(), ifconfig_address_steps(self.iface_name(), address.v4, address.v6), r),
    {
        let name = self.ifname();
        let mut plan: Vec<PlanStep> = Vec::new();
        match address.v4 {
            Some((addr, prefix)) => {
                let cidr = cidr_to_string(IpAddress::V4(addr), prefix);
                plan.push(PlanStep::Run("ifconfig", ifconfig_addr_cmd(false, cidr.as_str(), name), Reading::Checked));
            },
            None => {},
        }
        match address.v6 {
            Some((addr, prefix)) => {
                let cidr = cidr_to_string(IpAddress::V6(addr), prefix);
                plan.push(PlanStep::Run("ifconfig", ifconfig_addr_cmd(true, cidr.as_str(), name), Reading::Checked));
            },
            None => {},
        }
        assert(plan_view(plan@) =~= ifconfig_address_steps(self.iface_name(), address.v4, address.v6));
        run_plan(&*self.runner, &plan)
    }
}

/// The TUN interface of the platform.
pub enum PlatformTun<E: CommandExecutor, O: TunDeviceOpener> {
    Windows(WindowsWintunBackend<E>),
    MacOs(MacOsUtunBackend<E, O>),
    Linux(LinuxIpTunBackend<E, O>),
}

impl<E: CommandExecutor, O: TunDeviceOpener> PlatformTun<E, O> {
    /// The backend of `platform` for the interface `iface`.
    pub fn new(executor: Arc<E>, opener: Arc<O>, platform: Platform, iface: String) -> (r: Self)
        ensures
            match platform {
                Platform::Windows => r is Windows,
                Platform::MacOs => r is MacOs,
                Platform::Linux => r is Linux,
            },
            r.executor() == *executor,
            r.iface_name() == iface@,
    {
        match platform {
            Platform::Windows => PlatformTun::Windows(WindowsWintunBackend::new(executor, iface)),
            Platform::MacOs => PlatformTun::MacOs(MacOsUtunBackend::new(executor, opener, iface)),
            Platform::Linux => PlatformTun::Linux(LinuxIpTunBackend::new(executor, opener, iface)),
        }
    }

    /// Opens (creates) the interface, which must be this one.
    pub fn open(&self, name: &str) -> (r: Result<(), CoreError>)
        ensures
            name@ != self.iface_name() ==> (r matches Err(e) && is_invalid_input(e, "iface name mismatch"@)),
    {
        match self {
            PlatformTun::Windows(b) => b.open(name),
            PlatformTun::MacOs(b) => b.open(name),
            PlatformTun::Linux(b) => b.open(name),
        }
    }

    /// The executor that runs the commands.
    pub open spec fn executor(&self) -> E {
        match self {
            PlatformTun::Windows(b) => b.executor(),
            PlatformTun::MacOs(b) => b.executor(),
            PlatformTun::Linux(b) => b.executor(),
        }
    }

    /// The interface name.
    pub open spec fn iface_name(&self) -> Seq<char> {
        match self {
            PlatformTun::Windows(b) => b.iface_name(),
            PlatformTun::MacOs(b) => b.iface_name(),
            PlatformTun::Linux(b) => b.iface_name(),
        }
    }

    /// The command that brings the interface up or down.
    pub open spec fn updown_steps(&self, up: bool) -> Seq<Step> {
        match self {
            PlatformTun::Windows(b) => seq![checked_step("netsh"@, netsh_admin_args(b.iface_name(), up))],
            PlatformTun::MacOs(b) => seq![checked_step("ifconfig"@, ifconfig_updown_args(b.iface_name(), up))],
            PlatformTun::Linux(b) => seq![checked_step("ip"@, ip_updown_args(b.iface_name(), up))],
        }
    }

    /// The command that sets the MTU.
    pub open spec fn mtu_steps(&self, mtu: u32) -> Seq<Step> {
        match self {
            PlatformTun::Windows(b) => seq![checked_step("netsh"@, netsh_mtu_args(b.iface_name(), mtu))],
            PlatformTun::MacOs(b) => seq![checked_step("ifconfig"@, ifconfig_mtu_args(b.iface_name(), mtu))],
            PlatformTun::Linux(b) => seq![checked_step("ip"@, ip_mtu_args(b.iface_name(), mtu))],
        }
    }

    /// The commands that assign the addresses.
    pub open spec fn address_steps_of(&self, address: DeviceAddress) -> Seq<Step> {
        match self {
            PlatformTun::Windows(b) => netsh_address_steps(b.iface_name(), address.v4, address.v6),
            PlatformTun::MacOs(b) => ifconfig_address_steps(b.iface_name(), address.v4, address.v6),
            PlatformTun::Linux(b) => ip_address_steps(b.iface_name(), address.v4, address.v6),
        }
    }

    /// Brings the interface up.
    pub fn up(&self) -> (r: Result<(), CoreError>)
        ensures
            runs(&self.executor(), self.updown_steps(true), r),
    {
        match self {
            PlatformTun::Windows(b) => b.up(),
            PlatformTun::MacOs(b) => b.up(),
            PlatformTun::Linux(b) => b.up(),
        }
    }

    /// Brings the interface down.
    pub fn down(&self) -> (r: Result<(), CoreError>)
        ensures
            runs(&self.executor(), self.updown_steps(false), r),
    {
        match self {
            PlatformTun::Windows(b) => b.down(),
            PlatformTun::MacOs(b) => b.down(),
            PlatformTun::Linux(b) => b.down(),
        }
    }

    /// Sets the interface's MTU.
    pub fn set_mtu(&self, mtu: u32) -> (r: Result<(), CoreError>)
        ensures
            runs(&self.executor(), self.mtu_steps(mtu), r),
    {
        match self {
            PlatformTun::Windows(b) => b.set_mtu(mtu),
            PlatformTun::MacOs(b) => b.set_mtu(mtu),
            PlatformTun::Linux(b) => b.set_mtu(mtu),
        }
    }

    /// Assigns the interface's addresses.
    pub fn set_address(&self, address: &DeviceAddress) -> (r: Result<(), CoreError>)
        ensures
            runs(&self.executor(), self.address_steps_of(*address), r),
    {
        match self {
            PlatformTun::Windows(b) => b.set_address(address),
            PlatformTun::MacOs(b) => b.set_address(address),
            PlatformTun::Linux(b) => b.set_address(address),
        }
    }
}

} // verus!
