//! The menu of syscalls that the bound devices offer: one submenu per kind that has a
//! device, in it one submenu per device, in it one entry per operation.

use crate::broker::{Bound, BoundView};
use crate::dispatch::{kind_label, kind_of, Kind, Peripherals};
use vstd::prelude::*;
use vstd::string::*;

verus! {

/// One operation of one device: how the menu shows it and the name of its syscall.
#[derive(Debug)]
pub struct MenuEntry {
    pub label: String,
    pub value: String,
}

/// Mathematical value of a [`MenuEntry`].
pub struct MenuEntryView {
    pub label: Seq<char>,
    pub value: Seq<char>,
}

impl DeepView for MenuEntry {
    type V = MenuEntryView;

    open spec fn deep_view(&self) -> MenuEntryView {
        MenuEntryView { label: self.label@, value: self.value@ }
    }
}

/// The operations of one device, under its name.
#[derive(Debug)]
pub struct DeviceMenu {
    pub label: String,
    pub entries: Vec<MenuEntry>,
}

/// Mathematical value of a [`DeviceMenu`].
pub struct DeviceMenuView {
    pub label: Seq<char>,
    pub entries: Seq<MenuEntryView>,
}

impl DeepView for DeviceMenu {
    type V = DeviceMenuView;

    open spec fn deep_view(&self) -> DeviceMenuView {
        DeviceMenuView { label: self.label@, entries: self.entries.deep_view() }
    }
}

/// The devices of one kind, under the label of the kind.
#[derive(Debug)]
pub struct SyscallMenu {
    pub label: String,
    pub content: Vec<DeviceMenu>,
}

/// Mathematical value of a [`SyscallMenu`].
pub struct SyscallMenuView {
    pub label: Seq<char>,
    pub content: Seq<DeviceMenuView>,
}

impl DeepView for SyscallMenu {
    type V = SyscallMenuView;

    open spec fn deep_view(&self) -> SyscallMenuView {
        SyscallMenuView { label: self.label@, content: self.content.deep_view() }
    }
}

/// How many kinds there are.
pub const KINDS: usize = 9;

/// The kinds in the order in which the menu lists them.
pub open spec fn kind_at(k: int) -> Kind {
    if k == 0 {
        Kind::DigitalIn
    } else if k == 1 {
        Kind::DigitalOut
    } else if k == 2 {
        Kind::Motor
    } else if k == 3 {
        Kind::Hcsr04
    } else if k == 4 {
        Kind::Max30205
    } else if k == 5 {
        Kind::Is31fl3741
    } else if k == 6 {
        Kind::Bmp388
    } else if k == 7 {
        Kind::Lis3dh
    } else {
        Kind::Veml7700
    }
}

/// The operation that every device of a kind has.
pub open spec fn operation(kind: Kind) -> Seq<char> {
    match kind {
        Kind::DigitalIn => "get"@,
        Kind::DigitalOut => "set"@,
        Kind::Motor => "setPower"@,
        Kind::Hcsr04 => "getDistance"@,
        Kind::Max30205 => "getTemperature"@,
        Kind::Is31fl3741 => "setPixel"@,
        Kind::Bmp388 => "getPressure"@,
        Kind::Lis3dh => "getAcceleration"@,
        Kind::Veml7700 => "getLight"@,
    }
}

/// The entry for the operation `op` of the device `name` of kind `kind`.
pub open spec fn entry_for(kind: Kind, name: Seq<char>, op: Seq<char>) -> MenuEntryView {
    MenuEntryView { label: op, value: kind_label(kind) + "."@ + name + "."@ + op }
}

/// The submenu of the device `name` of kind `kind`. A barometer has a second operation.
pub open spec fn device_menu(kind: Kind, name: Seq<char>) -> DeviceMenuView {
    DeviceMenuView {
        label: name,
        entries: if kind == Kind::Bmp388 {
            seq![entry_for(kind, name, operation(kind)), entry_for(kind, name, "getTemperature"@)]
        } else {
            seq![entry_for(kind, name, operation(kind))]
        },
    }
}

/// The submenus of the devices of `kind` among the first `n` bound devices, in the
/// order of binding.
pub open spec fn devices_listed(bound: Seq<BoundView>, kind: Kind, n: int) -> Seq<DeviceMenuView>
    decreases n,
{
    if n <= 0 {
        Seq::empty()
    } else if kind_of(bound[n - 1].device) == kind {
        devices_listed(bound, kind, n - 1).push(device_menu(kind, bound[n - 1].name))
    } else {
        devices_listed(bound, kind, n - 1)
    }
}

/// The menu of the first `k` kinds: one submenu for each of them that has a device.
pub open spec fn menu_listed(bound: Seq<BoundView>, k: int) -> Seq<SyscallMenuView>
    decreases k,
{
    if k <= 0 {
        Seq::empty()
    } else {
        let content = devices_listed(bound, kind_at(k - 1), bound.len() as int);
        if content.len() > 0 {
            menu_listed(bound, k - 1).push(
                SyscallMenuView { label: kind_label(kind_at(k - 1)), content },
            )
        } else {
            menu_listed(bound, k - 1)
        }
    }
}

/// The whole menu of the devices `bound`.
pub open spec fn menu_of(bound: Seq<BoundView>) -> Seq<SyscallMenuView> {
    menu_listed(bound, KINDS as int)
}

impl Kind {
    /// The `k`-th kind in the order of the menu.
    pub fn nth(k: usize) -> (kind: Kind)
        ensures
            kind == kind_at(k as int),
    {
        if k == 0 {
            Kind::DigitalIn
        } else if k == 1 {
            Kind::DigitalOut
        } else if k == 2 {
            Kind::Motor
        } else if k == 3 {
            Kind::Hcsr04
        } else if k == 4 {
            Kind::Max30205
        } else if k == 5 {
            Kind::Is31fl3741
        } else if k == 6 {
            Kind::Bmp388
        } else if k == 7 {
            Kind::Lis3dh
        } else {
            Kind::Veml7700
        }
    }

    /// The first segment of the syscalls of the kind.
    pub fn label(&self) -> (label: &'static str)
        ensures
            label@ == kind_label(*self),
    {
        match self {
            Kind::DigitalIn => "DigitalIn",
            Kind::DigitalOut => "DigitalOut",
            Kind::Motor => "Motor",
            Kind::Hcsr04 => "HCSR04",
            Kind::Max30205 => "MAX30205",
            Kind::Is31fl3741 => "IS31FL3741",
            Kind::Bmp388 => "BMP388",
            Kind::Lis3dh => "LIS3DH",
            Kind::Veml7700 => "VEML7700",
        }
    }

    /// The operation that every device of the kind has.
    pub fn operation(&self) -> (op: &'static str)
        ensures
            op@ == operation(*self),
    {
        match self {
            Kind::DigitalIn => "get",
            Kind::DigitalOut => "set",
            Kind::Motor => "setPower",
            Kind::Hcsr04 => "getDistance",
            Kind::Max30205 => "getTemperature",
            Kind::Is31fl3741 => "setPixel",
            Kind::Bmp388 => "getPressure",
            Kind::Lis3dh => "getAcceleration",
            Kind::Veml7700 => "getLight",
        }
    }
}

fn make_entry(kind: Kind, name: &str, op: &str) -> (entry: MenuEntry)
    ensures
        entry.deep_view() == entry_for(kind, name@, op@),
{
    let mut value = String::from_str(kind.label());
    value.append(".");
    value.append(name);
    value.append(".");
    value.append(op);
    MenuEntry { label: String::from_str(op), value }
}

fn make_device_menu(kind: Kind, name: &str) -> (menu: DeviceMenu)
    ensures
        menu.deep_view() == device_menu(kind, name@),
{
    let mut entries: Vec<MenuEntry> = Vec::new();
    entries.push(make_entry(kind, name, kind.operation()));
    match kind {
        Kind::Bmp388 => {
            entries.push(make_entry(kind, name, "getTemperature"));
        },
        _ => {},
    }
    assert(entries.deep_view() =~= device_menu(kind, name@).entries);
    DeviceMenu { label: String::from_str(name), entries }
}

fn list_devices(bound: &Vec<Bound>, kind: Kind) -> (content: Vec<DeviceMenu>)
    ensures
        content.deep_view() == devices_listed(bound.deep_view(), kind, bound@.len() as int),
{
    let mut content: Vec<DeviceMenu> = Vec::new();
    let mut i: usize = 0;
    assert(content.deep_view() =~= Seq::empty());
    while i < bound.len()
        invariant
            i <= bound.len(),
            content.deep_view() == devices_listed(bound.deep_view(), kind, i as int),
        decreases bound.len() - i,
    {
        assert(bound.deep_view()[i as int] == bound[i as int].deep_view());
        if bound[i].device.kind() == kind {
            let ghost before = content.deep_view();
            let menu = make_device_menu(kind, bound[i].name.as_str());
            content.push(menu);
            assert(content.deep_view() =~= before.push(device_menu(kind, bound[i as int].name@)));
        }
        i = i + 1;
    }
    content
}

impl Peripherals {
    /// The menu of syscalls that the bound devices offer.
    pub fn menu(&self) -> (menu: Vec<SyscallMenu>)
        ensures
            menu.deep_view() == menu_of(self@),
    {
        let bound = self.devices();
        let mut menu: Vec<SyscallMenu> = Vec::new();
        let mut k: usize = 0;
        assert(menu.deep_view() =~= Seq::empty());
        while k < KINDS
            invariant
                k <= KINDS,
                bound.deep_view() == self@,
                menu.deep_view() == menu_listed(self@, k as int),
            decreases KINDS - k,
        {
            let kind = Kind::nth(k);
            let content = list_devices(bound, kind);
            assert(content.deep_view().len() == content@.len());
            assert(bound.deep_view().len() == bound@.len());
            if content.len() > 0 {
                let ghost before = menu.deep_view();
                let ghost listed = content.deep_view();
                menu.push(SyscallMenu { label: String::from_str(kind.label()), content });
                assert(menu.deep_view() =~= before.push(
                    SyscallMenuView { label: kind_label(kind), content: listed },
                ));
            }
            k = k + 1;
        }
        menu
    }
}

/// Whether the device bound at `a` is of kind `kind` and `entry` is its submenu.
pub open spec fn lists(bound: Seq<BoundView>, a: int, kind: Kind, entry: DeviceMenuView) -> bool {
    0 <= a < bound.len() && kind_of(bound[a].device) == kind && entry == device_menu(
        kind,
        bound[a].name,
    )
}

proof fn lemma_listed_are_bound(bound: Seq<BoundView>, kind: Kind, n: int, e: int)
    requires
        0 <= n <= bound.len(),
        0 <= e < devices_listed(bound, kind, n).len(),
    ensures
        exists|a: int| #[trigger] lists(bound, a, kind, devices_listed(bound, kind, n)[e]),
    decreases n,
{
    if n > 0 {
        let before = devices_listed(bound, kind, n - 1);
        if kind_of(bound[n - 1].device) == kind && e == before.len() {
            assert(lists(bound, n - 1, kind, devices_listed(bound, kind, n)[e]));
        } else {
            lemma_listed_are_bound(bound, kind, n - 1, e);
            let a = choose|a: int| #[trigger] lists(bound, a, kind, before[e]);
            assert(lists(bound, a, kind, devices_listed(bound, kind, n)[e]));
        }
    }
}

proof fn lemma_menu_kinds(bound: Seq<BoundView>, k: int, m: int)
    requires
        0 <= k,
        0 <= m < menu_listed(bound, k).len(),
    ensures
        exists|kind: Kind| #[trigger]
            kind_label(kind) == menu_listed(bound, k)[m].label && menu_listed(bound, k)[m].content
                == devices_listed(bound, kind, bound.len() as int),
    decreases k,
{
    if k > 0 {
        let content = devices_listed(bound, kind_at(k - 1), bound.len() as int);
        let before = menu_listed(bound, k - 1);
        if content.len() > 0 && m == before.len() {
            assert(kind_label(kind_at(k - 1)) == menu_listed(bound, k)[m].label);
        } else {
            lemma_menu_kinds(bound, k - 1, m);
            let kind = choose|kind: Kind| #[trigger]
                kind_label(kind) == before[m].label && before[m].content == devices_listed(
                    bound,
                    kind,
                    bound.len() as int,
                );
            assert(kind_label(kind) == menu_listed(bound, k)[m].label);
        }
    }
}

/// What is not bound is not on the menu: every submenu of a device on the menu is that
/// of a bound device, under the kind of that device.
pub proof fn law_menu_lists_bound_devices(bound: Seq<BoundView>, m: int, e: int)
    requires
        0 <= m < menu_of(bound).len(),
        0 <= e < menu_of(bound)[m].content.len(),
    ensures
        exists|a: int, kind: Kind|
            #![trigger lists(bound, a, kind, menu_of(bound)[m].content[e])]
            lists(bound, a, kind, menu_of(bound)[m].content[e]) && menu_of(bound)[m].label
                == kind_label(kind),
{
    lemma_menu_kinds(bound, KINDS as int, m);
    let kind = choose|kind: Kind| #[trigger]
        kind_label(kind) == menu_of(bound)[m].label && menu_of(bound)[m].content
            == devices_listed(bound, kind, bound.len() as int);
    lemma_listed_are_bound(bound, kind, bound.len() as int, e);
    let a = choose|a: int| #[trigger]
        lists(bound, a, kind, devices_listed(bound, kind, bound.len() as int)[e]);
    assert(lists(bound, a, kind, menu_of(bound)[m].content[e]));
}

} // verus!
