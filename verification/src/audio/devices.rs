//! Enumeration and selection of input devices.
//!
//! A device is known by its display name alone: two devices that report the
//! same name cannot be told apart, and the registry keeps one entry for both.

use vstd::prelude::*;
use vstd::string::StringExecFns;
use crate::models::{device_views, AudioDevice, AudioDeviceList, AudioDeviceView};
use crate::text::{contains_text, same_text, texts};

verus! {

/// The platform's default input device, as far as one enumeration saw it.
#[derive(Debug, Clone)]
pub enum DefaultDevice {
    /// The platform reports no default input device.
    Missing,
    /// There is a default device, but asking for its name failed.
    Unnamed,
    /// There is a default device with this name.
    Named(String),
}

/// Mathematical value of a [`DefaultDevice`].
pub enum DefaultDeviceView {
    Missing,
    Unnamed,
    Named(Seq<char>),
}

impl View for DefaultDevice {
    type V = DefaultDeviceView;

    open spec fn view(&self) -> DefaultDeviceView {
        match *self {
            DefaultDevice::Missing => DefaultDeviceView::Missing,
            DefaultDevice::Unnamed => DefaultDeviceView::Unnamed,
            DefaultDevice::Named(n) => DefaultDeviceView::Named(n@),
        }
    }
}

/// What one enumeration of the platform's input devices found: for each
/// device the outcome of asking for its name (`None` where that failed), and
/// the default device.
#[derive(Debug, Clone)]
pub struct DeviceSnapshot {
    pub names: Vec<Option<String>>,
    pub default_device: DefaultDevice,
}

/// Mathematical value of a [`DeviceSnapshot`].
pub struct DeviceSnapshotView {
    pub names: Seq<Option<Seq<char>>>,
    pub default_device: DefaultDeviceView,
}

/// The value of an optional name.
pub open spec fn name_view(name: Option<String>) -> Option<Seq<char>> {
    match name {
        Some(s) => Some(s@),
        None => None,
    }
}

impl View for DeviceSnapshot {
    type V = DeviceSnapshotView;

    open spec fn view(&self) -> DeviceSnapshotView {
        DeviceSnapshotView {
            names: self.names@.map_values(|n: Option<String>| name_view(n)),
            default_device: self.default_device@,
        }
    }
}

/// The device that the next capture opens.
#[derive(Debug, Clone)]
pub enum DeviceRef {
    /// Whatever the platform's default input device is; chosen when the
    /// default could not be matched to an enumerated name.
    PlatformDefault,
    /// The enumerated device with this display name.
    Named(String),
}

/// Mathematical value of a [`DeviceRef`].
pub enum DeviceRefView {
    PlatformDefault,
    Named(Seq<char>),
}

impl View for DeviceRef {
    type V = DeviceRefView;

    open spec fn view(&self) -> DeviceRefView {
        match *self {
            DeviceRef::PlatformDefault => DeviceRefView::PlatformDefault,
            DeviceRef::Named(n) => DeviceRefView::Named(n@),
        }
    }
}

/// The value of an optional selection.
pub open spec fn selection_view(current: Option<DeviceRef>) -> Option<DeviceRefView> {
    match current {
        Some(r) => Some(r@),
        None => None,
    }
}

/// Why a refresh left the controller without a usable selection.
#[derive(Debug, Clone, Copy, PartialEq, Eq, Structural)]
pub enum RefreshError {
    /// Nothing was selected and the platform has no default input device.
    NoInputDevices,
    /// The selected device vanished and the platform has no default to fall
    /// back to.
    CurrentUnavailable,
}

/// Name shown for a device whose name could not be queried.
pub open spec fn placeholder_name() -> Seq<char> {
    "Unknown Device"@
}

/// Name reported for the default device when there is none, or when its name
/// could not be queried.
pub open spec fn unknown_default_label() -> Seq<char> {
    "Unknown"@
}

/// The name under which an enumerated device is listed.
pub open spec fn display_name(name: Option<Seq<char>>) -> Seq<char> {
    match name {
        Some(n) => n,
        None => placeholder_name(),
    }
}

/// The names under which the enumerated devices are listed, in order.
pub open spec fn display_names(names: Seq<Option<Seq<char>>>) -> Seq<Seq<char>> {
    names.map_values(|n: Option<Seq<char>>| display_name(n))
}

/// The names of `names` without repetition, each at the place of its first
/// occurrence.
pub open spec fn distinct(names: Seq<Seq<char>>) -> Seq<Seq<char>>
    decreases names.len(),
{
    if names.len() == 0 {
        Seq::empty()
    } else {
        let head = distinct(names.drop_last());
        if head.contains(names.last()) {
            head
        } else {
            head.push(names.last())
        }
    }
}

/// `distinct` keeps exactly the names it was given, each once.
pub proof fn lemma_distinct(names: Seq<Seq<char>>)
    ensures
        distinct(names).no_duplicates(),
        forall|n: Seq<char>| distinct(names).contains(n) <==> names.contains(n),
        distinct(names).len() <= names.len(),
    decreases names.len(),
{
    if names.len() > 0 {
        let front = names.drop_last();
        let head = distinct(front);
        lemma_distinct(front);
        assert forall|n: Seq<char>| distinct(names).contains(n) <==> names.contains(n) by {
            if names.contains(n) {
                let i = choose|i: int| 0 <= i < names.len() && names[i] == n;
                if i < names.len() - 1 {
                    assert(front[i] == n);
                    assert(front.contains(n));
                    assert(head.contains(n));
                    let j = choose|j: int| 0 <= j < head.len() && head[j] == n;
                    assert(distinct(names)[j] == n);
                } else {
                    assert(n == names.last());
                    if !head.contains(n) {
                        assert(distinct(names)[head.len() as int] == n);
                    }
                }
            }
            if distinct(names).contains(n) {
                let j = choose|j: int| 0 <= j < distinct(names).len() && distinct(names)[j] == n;
                if j < head.len() {
                    assert(head[j] == n);
                    assert(head.contains(n));
                    assert(front.contains(n));
                    let i = choose|i: int| 0 <= i < front.len() && front[i] == n;
                    assert(names[i] == n);
                } else {
                    assert(n == names.last());
                    assert(names[names.len() - 1] == n);
                }
            }
        }
    }
}

/// Listing one more device lists its display name after the others.
proof fn lemma_display_names_step(names: Seq<Option<Seq<char>>>, i: int)
    requires
        0 <= i < names.len(),
    ensures
        display_names(names.take(i + 1)) == display_names(names.take(i)).push(display_name(names[i])),
        display_names(names.take(i + 1)).drop_last() == display_names(names.take(i)),
        display_names(names.take(i + 1)).last() == display_name(names[i]),
{
    assert(display_names(names.take(i + 1)) =~= display_names(names.take(i)).push(display_name(names[i])));
    assert(display_names(names.take(i + 1)).drop_last() =~= display_names(names.take(i)));
}

/// A longer prefix holds what the shorter one holds, and the element between.
proof fn lemma_contains_step<T>(s: Seq<T>, i: int)
    requires
        0 <= i < s.len(),
    ensures
        forall|x: T| s.take(i + 1).contains(x) <==> (s.take(i).contains(x) || s[i] == x),
{
    assert forall|x: T| s.take(i + 1).contains(x) <==> (s.take(i).contains(x) || s[i] == x) by {
        let longer = s.take(i + 1);
        let shorter = s.take(i);
        if longer.contains(x) {
            let j = choose|j: int| 0 <= j < longer.len() && longer[j] == x;
            if j < i {
                assert(shorter[j] == x);
            }
        }
        if shorter.contains(x) {
            let j = choose|j: int| 0 <= j < shorter.len() && shorter[j] == x;
            assert(longer[j] == x);
        }
        if s[i] == x {
            assert(longer[i] == x);
        }
    }
}

/// One entry per listed name, flagged where the name is that of the default
/// device and where it is that of the selected device.
pub open spec fn listing(names: Seq<Seq<char>>, default_name: Seq<char>, current_name: Seq<char>) -> Seq<AudioDeviceView> {
    names.map_values(
        |n: Seq<char>| AudioDeviceView { name: n, is_default: n == default_name, is_current: n == current_name },
    )
}

impl DeviceSnapshotView {
    /// The registry's entries after this enumeration.
    pub open spec fn available(self) -> Seq<Seq<char>> {
        distinct(display_names(self.names))
    }

    /// The selection that stands for the platform default: by name where an
    /// enumerated device reported the default's name, else the default as
    /// such.
    pub open spec fn default_ref(self) -> DeviceRefView {
        match self.default_device {
            DefaultDeviceView::Named(d) => if self.names.contains(Some(d)) {
                DeviceRefView::Named(d)
            } else {
                DeviceRefView::PlatformDefault
            },
            _ => DeviceRefView::PlatformDefault,
        }
    }

    /// The default device's name as reported in device lists.
    pub open spec fn default_label(self) -> Seq<char> {
        match self.default_device {
            DefaultDeviceView::Named(d) => d,
            _ => unknown_default_label(),
        }
    }
}

/// Mathematical value of a [`DeviceRegistry`].
pub struct DeviceRegistryView {
    pub available: Seq<Seq<char>>,
    pub current: Option<DeviceRefView>,
}

impl DeviceRegistryView {
    /// Name of the selected device: empty when nothing is selected or when the
    /// selection is the unnamed platform default.
    pub open spec fn current_name(self) -> Seq<char> {
        match self.current {
            Some(DeviceRefView::Named(n)) => n,
            _ => Seq::empty(),
        }
    }

    /// Whether the selection survives an enumeration that found `available`.
    pub open spec fn selection_survives(self, available: Seq<Seq<char>>) -> bool {
        self.current is Some && available.contains(self.current_name())
    }

    /// The error a refresh against `snapshot` raises, if any: only a missing
    /// platform default can make a refresh fail.
    pub open spec fn refresh_error(self, snapshot: DeviceSnapshotView) -> Option<RefreshError> {
        if self.selection_survives(snapshot.available()) || !(snapshot.default_device is Missing) {
            None
        } else if self.current is None {
            Some(RefreshError::NoInputDevices)
        } else {
            Some(RefreshError::CurrentUnavailable)
        }
    }

    /// The registry after a refresh against `snapshot`. The entries are always
    /// replaced; the selection is kept where it survives, falls back to the
    /// platform default where there is one, and is otherwise left as it was.
    pub open spec fn refreshed(self, snapshot: DeviceSnapshotView) -> DeviceRegistryView {
        DeviceRegistryView {
            available: snapshot.available(),
            current: if self.selection_survives(snapshot.available()) || snapshot.default_device is Missing {
                self.current
            } else {
                Some(snapshot.default_ref())
            },
        }
    }

    /// After a refresh the entries are the enumerated display names, each
    /// exactly once.
    pub proof fn lemma_refreshed_entries(self, snapshot: DeviceSnapshotView)
        ensures
            self.refreshed(snapshot).available.no_duplicates(),
            forall|n: Seq<char>|
                self.refreshed(snapshot).available.contains(n) <==> display_names(snapshot.names).contains(n),
    {
        lemma_distinct(display_names(snapshot.names));
    }

    /// A refresh cannot fail while the platform has a default input device,
    /// and it always ends with a selection then.
    pub proof fn lemma_refresh_succeeds_with_default(self, snapshot: DeviceSnapshotView)
        requires
            !(snapshot.default_device is Missing),
        ensures
            self.refresh_error(snapshot) is None,
            self.refreshed(snapshot).current is Some,
    {
    }

    /// When the selected device is gone and the platform has a default, the
    /// refresh selects the default and raises no error.
    pub proof fn lemma_refresh_falls_back_to_default(self, snapshot: DeviceSnapshotView)
        requires
            self.current is Some,
            !snapshot.available().contains(self.current_name()),
            !(snapshot.default_device is Missing),
        ensures
            self.refresh_error(snapshot) is None,
            self.refreshed(snapshot).current == Some(snapshot.default_ref()),
    {
    }

    /// A selection that is still listed is never replaced.
    pub proof fn lemma_refresh_keeps_listed_selection(self, snapshot: DeviceSnapshotView)
        requires
            self.current is Some,
            snapshot.available().contains(self.current_name()),
        ensures
            self.refresh_error(snapshot) is None,
            self.refreshed(snapshot).current == self.current,
    {
    }

    /// The registry after an enumeration that failed outright: no entries,
    /// selection untouched.
    pub open spec fn emptied(self) -> DeviceRegistryView {
        DeviceRegistryView { available: Seq::empty(), current: self.current }
    }

    /// The registry after a request to switch to `name`: the selection moves
    /// only to a listed name.
    pub open spec fn switched(self, name: Seq<char>) -> DeviceRegistryView {
        if self.available.contains(name) {
            DeviceRegistryView { available: self.available, current: Some(DeviceRefView::Named(name)) }
        } else {
            self
        }
    }
}

/// The known input devices and the one selected for the next capture.
#[derive(Debug)]
pub struct DeviceRegistry {
    available: Vec<String>,
    current: Option<DeviceRef>,
}

impl View for DeviceRegistry {
    type V = DeviceRegistryView;

    closed spec fn view(&self) -> DeviceRegistryView {
        DeviceRegistryView { available: texts(self.available@), current: selection_view(self.current) }
    }
}

impl RefreshError {
    /// Text of the message.
    pub open spec fn text(self) -> Seq<char> {
        match self {
            RefreshError::NoInputDevices => "No input devices available"@,
            RefreshError::CurrentUnavailable => "Current device unavailable and no default device found"@,
        }
    }

    /// The message reported for this error.
    pub fn message(&self) -> (m: String)
        ensures
            m@ == self.text(),
    {
        match self {
            RefreshError::NoInputDevices => String::from_str("No input devices available"),
            RefreshError::CurrentUnavailable => String::from_str(
                "Current device unavailable and no default device found",
            ),
        }
    }
}

impl DeviceRegistry {
    /// No name is listed twice.
    #[verifier::type_invariant]
    closed spec fn entries_distinct(self) -> bool {
        texts(self.available@).no_duplicates()
    }

    /// A registry that knows no device yet and has `selected` selected, if
    /// anything.
    pub fn with_selection(selected: Option<&str>) -> (r: DeviceRegistry)
        ensures
            r@ == selecting(slice_view(selected)),
    {
        let available: Vec<String> = Vec::new();
        assert(texts(available@) =~= Seq::<Seq<char>>::empty());
        let current = match selected {
            Some(name) => Some(DeviceRef::Named(String::from_str(name))),
            None => None,
        };
        DeviceRegistry { available, current }
    }

    /// A registry that knows no device and has nothing selected.
    pub fn new() -> (r: DeviceRegistry)
        ensures
            r@ == (DeviceRegistryView { available: Seq::empty(), current: None }),
    {
        let available: Vec<String> = Vec::new();
        assert(texts(available@) =~= Seq::<Seq<char>>::empty());
        DeviceRegistry { available, current: None }
    }

    /// The listed names, in the order of their first enumeration; none
    /// occurs twice.
    pub fn available(&self) -> (names: &Vec<String>)
        ensures
            texts(names@) == self@.available,
            self@.available.no_duplicates(),
    {
        proof {
            use_type_invariant(self);
        }
        &self.available
    }

    /// The selection for the next capture.
    pub fn current(&self) -> (c: &Option<DeviceRef>)
        ensures
            selection_view(*c) == self@.current,
    {
        &self.current
    }

    /// A copy of the selection for the next capture.
    pub fn selection(&self) -> (c: Option<DeviceRef>)
        ensures
            selection_view(c) == self@.current,
    {
        match &self.current {
            Some(DeviceRef::Named(n)) => Some(DeviceRef::Named(n.clone())),
            Some(DeviceRef::PlatformDefault) => Some(DeviceRef::PlatformDefault),
            None => None,
        }
    }

    /// Whether a device is selected.
    pub fn has_current(&self) -> (b: bool)
        ensures
            b == (self@.current is Some),
    {
        self.current.is_some()
    }

    /// Name of the selected device; empty when there is none to name.
    pub fn current_name(&self) -> (name: String)
        ensures
            name@ == self@.current_name(),
    {
        match &self.current {
            Some(DeviceRef::Named(n)) => n.clone(),
            _ => String::new(),
        }
    }

    /// Whether `name` is listed.
    pub fn is_available(&self, name: &str) -> (b: bool)
        ensures
            b == self@.available.contains(name@),
    {
        contains_text(&self.available, name)
    }

    /// Forgets every entry after an enumeration that failed outright.
    pub fn clear(&mut self)
        ensures
            final(self)@ == old(self)@.emptied(),
    {
        let available: Vec<String> = Vec::new();
        assert(texts(available@) =~= Seq::<Seq<char>>::empty());
        self.available = available;
    }

    /// Brings the registry up to date with an enumeration.
    ///
    /// The entries are replaced by the enumerated names, without repetition.
    /// A selection that is still listed stays. Otherwise the platform default
    /// is selected; only where there is none does the refresh fail, and the
    /// selection is then left as it was.
    pub fn refresh(&mut self, snapshot: &DeviceSnapshot) -> (r: Result<(), RefreshError>)
        ensures
            final(self)@ == old(self)@.refreshed(snapshot@),
            r == match old(self)@.refresh_error(snapshot@) {
                None => Ok::<(), RefreshError>(()),
                Some(e) => Err(e),
            },
    {
        let ghost names = snapshot@.names;
        let mut available: Vec<String> = Vec::new();
        let mut default_listed = false;
        let mut i: usize = 0;
        proof {
            assert(names.take(0) =~= Seq::<Option<Seq<char>>>::empty());
            assert(display_names(names.take(0)) =~= Seq::<Seq<char>>::empty());
            assert(texts(available@) =~= Seq::<Seq<char>>::empty());
        }
        while i < snapshot.names.len()
            invariant
                i <= snapshot.names.len(),
                names == snapshot@.names,
                names.len() == snapshot.names.len(),
                texts(available@) == distinct(display_names(names.take(i as int))),
                default_listed == match snapshot@.default_device {
                    DefaultDeviceView::Named(d) => names.take(i as int).contains(Some(d)),
                    _ => false,
                },
            decreases snapshot.names.len() - i,
        {
            proof {
                lemma_display_names_step(names, i as int);
                lemma_contains_step(names, i as int);
            }
            let name = match &snapshot.names[i] {
                Some(n) => {
                    match &snapshot.default_device {
                        DefaultDevice::Named(d) => {
                            if same_text(d.as_str(), n.as_str()) {
                                default_listed = true;
                            }
                        },
                        _ => {},
                    }
                    n.clone()
                },
                None => String::from_str("Unknown Device"),
            };
            assert(name@ == display_name(names[i as int]));
            if !contains_text(&available, name.as_str()) {
                let ghost before = available@;
                available.push(name);
                assert(texts(available@) =~= texts(before).push(name@));
            }
            i = i + 1;
        }
        proof {
            assert(names.take(i as int) =~= names);
        }
        let survives = match &self.current {
            None => false,
            Some(DeviceRef::Named(n)) => contains_text(&available, n.as_str()),
            Some(DeviceRef::PlatformDefault) => {
                let empty = String::new();
                contains_text(&available, empty.as_str())
            },
        };
        let selected = self.current.is_some();
        proof {
            lemma_distinct(display_names(names));
        }
        self.available = available;
        if survives {
            Ok(())
        } else {
            match &snapshot.default_device {
                DefaultDevice::Missing => {
                    if selected {
                        Err(RefreshError::CurrentUnavailable)
                    } else {
                        Err(RefreshError::NoInputDevices)
                    }
                },
                DefaultDevice::Unnamed => {
                    self.current = Some(DeviceRef::PlatformDefault);
                    Ok(())
                },
                DefaultDevice::Named(d) => {
                    if default_listed {
                        self.current = Some(DeviceRef::Named(d.clone()));
                    } else {
                        self.current = Some(DeviceRef::PlatformDefault);
                    }
                    Ok(())
                },
            }
        }
    }

    /// The device list shown to the user: one entry per listed name, in
    /// listing order, flagged where the name equals `default_name` and where
    /// it equals the name of the selection.
    pub fn device_list(&self, default_name: &str) -> (list: Vec<AudioDevice>)
        ensures
            device_views(list@) == listing(self@.available, default_name@, self@.current_name()),
    {
        let current = self.current_name();
        let mut list: Vec<AudioDevice> = Vec::new();
        let mut i: usize = 0;
        let ghost target = listing(self@.available, default_name@, self@.current_name());
        proof {
            assert(device_views(list@) =~= target.take(0));
        }
        while i < self.available.len()
            invariant
                i <= self.available.len(),
                current@ == self@.current_name(),
                target == listing(self@.available, default_name@, self@.current_name()),
                self@.available == texts(self.available@),
                device_views(list@) == target.take(i as int),
            decreases self.available.len() - i,
        {
            let name = self.available[i].clone();
            let is_default = same_text(name.as_str(), default_name);
            let is_current = same_text(name.as_str(), current.as_str());
            let ghost before = list@;
            list.push(AudioDevice { name, is_default, is_current });
            i = i + 1;
            proof {
                assert(device_views(list@) =~= device_views(before).push(list@[i - 1]@));
                assert(target.take(i as int) =~= target.take(i - 1).push(target[i - 1]));
            }
        }
        proof {
            assert(target.take(i as int) =~= target);
        }
        list
    }

    /// Selects `name` for the next capture if it is listed, and says whether
    /// it was. A running capture is not affected.
    pub fn switch_to(&mut self, name: &str) -> (found: bool)
        ensures
            found == old(self)@.available.contains(name@),
            final(self)@ == old(self)@.switched(name@),
    {
        proof {
            use_type_invariant(&*self);
        }
        if contains_text(&self.available, name) {
            self.current = Some(DeviceRef::Named(String::from_str(name)));
            true
        } else {
            false
        }
    }
}

/// The report of the check whether the microphone can be used: the name
/// of the default device, the reason for which it could not be asked, or
/// word that there is none.
pub fn check_microphone_permission(default_device: &DefaultDevice, failure: &str) -> (report: String)
    ensures
        report@ == match default_device@ {
            DefaultDeviceView::Named(name) => "\u{2705} Microphone permission granted. Device: "@ + name,
            DefaultDeviceView::Unnamed => "\u{274c} Microphone permission denied or device error: "@ + failure@,
            DefaultDeviceView::Missing => "\u{274c} No microphone device available"@,
        },
{
    match default_device {
        DefaultDevice::Named(name) => crate::text::prefixed(
            "\u{2705} Microphone permission granted. Device: ",
            name.as_str(),
        ),
        DefaultDevice::Unnamed => crate::text::prefixed(
            "\u{274c} Microphone permission denied or device error: ",
            failure,
        ),
        DefaultDevice::Missing => String::from_str("\u{274c} No microphone device available"),
    }
}

/// The registry that knows no device yet and has `selected` selected, if
/// anything.
pub open spec fn selecting(selected: Option<Seq<char>>) -> DeviceRegistryView {
    DeviceRegistryView {
        available: Seq::empty(),
        current: match selected {
            Some(name) => Some(DeviceRefView::Named(name)),
            None => None,
        },
    }
}

/// The value of an optional name given as a slice.
pub open spec fn slice_view(name: Option<&str>) -> Option<Seq<char>> {
    match name {
        Some(n) => Some(n@),
        None => None,
    }
}

/// The device list that the command layer reports from an enumeration and
/// the name of the device that is selected, if one is.
///
/// The list holds the enumerated names, each once, in the order in which
/// they were first met; a device whose name could not be queried is listed
/// under the name for unknown devices. The device in use is the selected
/// one as long as it is listed, else the platform default; its entry is
/// flagged as current, the entry with the default's name as default.
pub fn list_devices(snapshot: &DeviceSnapshot, selected: Option<&str>) -> (list: AudioDeviceList)
    ensures
        device_views(list.devices@) == listing(
            snapshot@.available(),
            snapshot@.default_label(),
            selecting(slice_view(selected)).refreshed(snapshot@).current_name(),
        ),
        name_view(list.current_device) == Some(
            selecting(slice_view(selected)).refreshed(snapshot@).current_name(),
        ),
{
    let mut registry = DeviceRegistry::with_selection(selected);
    let _ = registry.refresh(snapshot);
    let default_name = match &snapshot.default_device {
        DefaultDevice::Named(d) => d.clone(),
        _ => String::from_str("Unknown"),
    };
    let devices = registry.device_list(default_name.as_str());
    AudioDeviceList { devices, current_device: Some(registry.current_name()) }
}

/// The flags of the entries of a device list: an entry is flagged as
/// default exactly where its name is the default's, and as current exactly
/// where its name is that of the device in use.
pub proof fn lemma_listing_flags(names: Seq<Seq<char>>, default_name: Seq<char>, current_name: Seq<char>, i: int)
    requires
        0 <= i < names.len(),
    ensures
        listing(names, default_name, current_name).len() == names.len(),
        listing(names, default_name, current_name)[i].name == names[i],
        listing(names, default_name, current_name)[i].is_default == (names[i] == default_name),
        listing(names, default_name, current_name)[i].is_current == (names[i] == current_name),
{
}

/// A selected device that is enumerated is the device in use, whatever the
/// platform default is: its entry is the one flagged as current, and an
/// entry with another name, the default's included, is not.
pub proof fn lemma_selected_device_is_current(snapshot: DeviceSnapshotView, selected: Seq<char>, i: int)
    requires
        snapshot.available().contains(selected),
        0 <= i < snapshot.available().len(),
    ensures
        selecting(Some(selected)).refreshed(snapshot).current_name() == selected,
        listing(snapshot.available(), snapshot.default_label(), selected)[i].is_current == (snapshot.available()[i]
            == selected),
        listing(snapshot.available(), snapshot.default_label(), selected)[i].is_default == (snapshot.available()[i]
            == snapshot.default_label()),
{
}

} // verus!
