//! Which device a criterion selects.

use vstd::prelude::*;
use crate::device::{AudioDevice, DeviceView};
use crate::text::{contains_ignoring_case, lowercase_of, occurs_in};

verus! {

/// How a caller names the device that it wants.
#[derive(Clone, Debug, PartialEq, Eq)]
pub enum MatchCriterion {
    /// The device with exactly this identifier.
    ExactId(String),
    /// A device whose label or identifier contains this text, whatever the
    /// case of the letters.
    Substring(String),
}

/// Mathematical value of a [`MatchCriterion`].
pub enum CriterionView {
    ExactId(Seq<char>),
    Substring(Seq<char>),
}

impl View for MatchCriterion {
    type V = CriterionView;

    open spec fn view(&self) -> CriterionView {
        match self {
            MatchCriterion::ExactId(id) => CriterionView::ExactId(id@),
            MatchCriterion::Substring(text) => CriterionView::Substring(text@),
        }
    }
}

impl DeepView for MatchCriterion {
    type V = CriterionView;

    open spec fn deep_view(&self) -> CriterionView {
        self@
    }
}

/// The device meets the criterion.
pub open spec fn satisfies(device: DeviceView, criterion: CriterionView) -> bool {
    match criterion {
        CriterionView::ExactId(id) => device.id == id,
        CriterionView::Substring(text) => {
            ||| occurs_in(lowercase_of(text), lowercase_of(device.name))
            ||| occurs_in(lowercase_of(text), lowercase_of(device.id))
        },
    }
}

/// `index` is the place of the first device, in the order of the listing,
/// that meets the criterion.
pub open spec fn is_first_match(
    devices: Seq<DeviceView>,
    criterion: CriterionView,
    index: int,
) -> bool {
    &&& 0 <= index < devices.len()
    &&& satisfies(devices[index], criterion)
    &&& forall|earlier: int| 0 <= earlier < index ==> !satisfies(#[trigger] devices[earlier], criterion)
}

/// The place of the first device that meets the criterion, if any does.
pub open spec fn first_match(devices: Seq<DeviceView>, criterion: CriterionView) -> Option<int> {
    if exists|index: int| is_first_match(devices, criterion, index) {
        Some(choose|index: int| is_first_match(devices, criterion, index))
    } else {
        None
    }
}

/// Whether one device meets the criterion.
pub fn device_matches(device: &AudioDevice, criterion: &MatchCriterion) -> (yes: bool)
    ensures
        yes == satisfies(device@, criterion@),
{
    match criterion {
        MatchCriterion::ExactId(id) => device.id == *id,
        MatchCriterion::Substring(text) => {
            contains_ignoring_case(device.name.as_str(), text.as_str())
                || contains_ignoring_case(device.id.as_str(), text.as_str())
        },
    }
}

/// Finds the first device, in the order of the listing, that meets the
/// criterion.
pub fn find_match(devices: &Vec<AudioDevice>, criterion: &MatchCriterion) -> (found: Option<usize>)
    ensures
        match found {
            Some(index) => first_match(devices.deep_view(), criterion@) == Some(index as int),
            None => first_match(devices.deep_view(), criterion@) is None,
        },
{
    let mut index: usize = 0;
    while index < devices.len()
        invariant
            index <= devices.len(),
            forall|earlier: int|
                0 <= earlier < index ==> !satisfies(
                    #[trigger] devices.deep_view()[earlier],
                    criterion@,
                ),
        decreases devices.len() - index,
    {
        if device_matches(&devices[index], criterion) {
            proof {
                assert(is_first_match(devices.deep_view(), criterion@, index as int));
                lemma_first_match_is_unique(devices.deep_view(), criterion@, index as int);
            }
            return Some(index);
        }
        index += 1;
    }
    proof {
        lemma_no_match(devices.deep_view(), criterion@);
    }
    None
}

/// There is one first match at most: the place that [`first_match`] names is
/// the least one whose device meets the criterion.
pub proof fn lemma_first_match_is_unique(
    devices: Seq<DeviceView>,
    criterion: CriterionView,
    index: int,
)
    requires
        is_first_match(devices, criterion, index),
    ensures
        first_match(devices, criterion) == Some(index),
{
    let chosen = choose|other: int| is_first_match(devices, criterion, other);
    assert(is_first_match(devices, criterion, chosen));
    if chosen < index {
        assert(!satisfies(devices[chosen], criterion));
    } else if index < chosen {
        assert(!satisfies(devices[index], criterion));
    }
}

/// Where no device meets the criterion, none is selected.
pub proof fn lemma_no_match(devices: Seq<DeviceView>, criterion: CriterionView)
    requires
        forall|index: int|
            0 <= index < devices.len() ==> !satisfies(#[trigger] devices[index], criterion),
    ensures
        first_match(devices, criterion) is None,
{
}

/// Where some device meets the criterion, one is selected: the first of
/// them, so that the selection is the same whenever the listing is.
pub proof fn lemma_some_match(devices: Seq<DeviceView>, criterion: CriterionView, index: int)
    requires
        0 <= index < devices.len(),
        satisfies(devices[index], criterion),
    ensures
        first_match(devices, criterion) matches Some(first) && first <= index && is_first_match(
            devices,
            criterion,
            first,
        ),
    decreases index,
{
    if exists|earlier: int| 0 <= earlier < index && satisfies(#[trigger] devices[earlier], criterion) {
        let earlier = choose|earlier: int|
            0 <= earlier < index && satisfies(#[trigger] devices[earlier], criterion);
        lemma_some_match(devices, criterion, earlier);
    } else {
        assert(is_first_match(devices, criterion, index));
        lemma_first_match_is_unique(devices, criterion, index);
    }
}

/// Selecting by the identifier of a listed device finds a device with
/// exactly that identifier.
pub proof fn lemma_listed_id_is_found(devices: Seq<DeviceView>, index: int)
    requires
        0 <= index < devices.len(),
    ensures
        first_match(devices, CriterionView::ExactId(devices[index].id)) matches Some(first)
            && devices[first].id == devices[index].id,
{
    lemma_some_match(devices, CriterionView::ExactId(devices[index].id), index);
}

} // verus!
