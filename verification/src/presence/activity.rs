use vstd::prelude::*;

use crate::error::CordError;
use crate::protocol::msgpack::fields::{
    bool_under, text_under, uint_under,
    bool_field, get_bool, get_str, get_uint, opt_str, str_field, uint_field,
};
use crate::protocol::msgpack::value::{
    dict_get, dict_get_entry, entries_view, items_view, Value, ValueView,
};
use crate::protocol::json::serialize::{
    lemma_member_concat, lemma_member_opt, lemma_member_single, member, opt_member, push_member, push_opt_member,
    text_value, Serialize,
};
use crate::protocol::json::value::{fields_view as json_fields_view, lemma_refs_view, refs_view, RefView as JsonView, ValueRef as JsonRef};
use crate::util::text::str_eq;

verus! {

/// A rich-presence activity, as the editor plugin describes it.
#[derive(Debug, Clone)]
pub struct Activity {
    pub ty: ActivityType,
    pub status_display_type: StatusDisplayType,
    pub details: Option<String>,
    pub details_url: Option<String>,
    pub state: Option<String>,
    pub state_url: Option<String>,
    pub assets: Option<ActivityAssets>,
    pub timestamps: Option<ActivityTimestamps>,
    pub buttons: Vec<ActivityButton>,
    pub is_idle: bool,
}

/// What the user is shown to be doing.
#[derive(Debug, Clone, Copy, PartialEq, Eq, Structural)]
pub enum ActivityType {
    Playing,
    Listening,
    Watching,
    Competing,
}

/// Which part of the activity the status line shows.
#[derive(Debug, Clone, Copy, PartialEq, Eq, Structural)]
pub enum StatusDisplayType {
    Name,
    State,
    Details,
}

/// The images of an activity and their tooltips and links.
#[derive(Debug, Clone)]
pub struct ActivityAssets {
    pub large_image: Option<String>,
    pub large_text: Option<String>,
    pub large_url: Option<String>,
    pub small_image: Option<String>,
    pub small_text: Option<String>,
    pub small_url: Option<String>,
}

/// When an activity started and ends, in seconds since the epoch.
#[derive(Debug, Clone, Copy, PartialEq, Eq, Structural)]
pub struct ActivityTimestamps {
    pub start: Option<u64>,
    pub end: Option<u64>,
}

/// A button with a label and the link it opens.
#[derive(Debug, Clone)]
pub struct ActivityButton {
    pub label: String,
    pub url: String,
}

impl ActivityType {
    /// The numeric code Discord uses for the type.
    pub open spec fn spec_code(self) -> u8 {
        match self {
            ActivityType::Playing => 0,
            ActivityType::Listening => 2,
            ActivityType::Watching => 3,
            ActivityType::Competing => 5,
        }
    }

    /// The numeric code Discord uses for the type.
    pub fn code(&self) -> (c: u8)
        ensures
            c == self.spec_code(),
    {
        match self {
            ActivityType::Playing => 0,
            ActivityType::Listening => 2,
            ActivityType::Watching => 3,
            ActivityType::Competing => 5,
        }
    }

    /// The type a name stands for, if it names one.
    pub open spec fn spec_from_name(s: Seq<char>) -> Option<ActivityType> {
        if s == "playing"@ {
            Some(ActivityType::Playing)
        } else if s == "listening"@ {
            Some(ActivityType::Listening)
        } else if s == "watching"@ {
            Some(ActivityType::Watching)
        } else if s == "competing"@ {
            Some(ActivityType::Competing)
        } else {
            None
        }
    }

    /// Reads a type from its name: `playing`, `listening`, `watching` or
    /// `competing`.
    pub fn from_str(s: &str) -> (r: Result<ActivityType, ()>)
        ensures
            match Self::spec_from_name(s@) {
                Some(t) => r == Ok::<ActivityType, ()>(t),
                None => r is Err,
            },
    {
        if str_eq(s, "playing") {
            Ok(ActivityType::Playing)
        } else if str_eq(s, "listening") {
            Ok(ActivityType::Listening)
        } else if str_eq(s, "watching") {
            Ok(ActivityType::Watching)
        } else if str_eq(s, "competing") {
            Ok(ActivityType::Competing)
        } else {
            Err(())
        }
    }
}

impl StatusDisplayType {
    /// The numeric code Discord uses for the display type.
    pub open spec fn spec_code(self) -> u8 {
        match self {
            StatusDisplayType::Name => 0,
            StatusDisplayType::State => 1,
            StatusDisplayType::Details => 2,
        }
    }

    /// The numeric code Discord uses for the display type.
    pub fn code(&self) -> (c: u8)
        ensures
            c == self.spec_code(),
    {
        match self {
            StatusDisplayType::Name => 0,
            StatusDisplayType::State => 1,
            StatusDisplayType::Details => 2,
        }
    }

    /// The display type a name stands for, if it names one.
    pub open spec fn spec_from_name(s: Seq<char>) -> Option<StatusDisplayType> {
        if s == "name"@ {
            Some(StatusDisplayType::Name)
        } else if s == "state"@ {
            Some(StatusDisplayType::State)
        } else if s == "details"@ {
            Some(StatusDisplayType::Details)
        } else {
            None
        }
    }

    /// Reads a display type from its name: `name`, `state` or `details`.
    pub fn from_str(s: &str) -> (r: Result<StatusDisplayType, ()>)
        ensures
            match Self::spec_from_name(s@) {
                Some(t) => r == Ok::<StatusDisplayType, ()>(t),
                None => r is Err,
            },
    {
        if str_eq(s, "name") {
            Ok(StatusDisplayType::Name)
        } else if str_eq(s, "state") {
            Ok(StatusDisplayType::State)
        } else if str_eq(s, "details") {
            Ok(StatusDisplayType::Details)
        } else {
            Err(())
        }
    }
}

/// A button's label and link, when `v` is a map holding both as strings.
pub open spec fn button_of(v: ValueView) -> Option<(Seq<char>, Seq<char>)> {
    match v {
        ValueView::Dict(e) => match (str_field(e, "label"@), str_field(e, "url"@)) {
            (Some(l), Some(u)) => Some((l, u)),
            _ => None,
        },
        _ => None,
    }
}

/// The buttons among `items`, in order, skipping those that are malformed.
pub open spec fn buttons_of(items: Seq<ValueView>) -> Seq<(Seq<char>, Seq<char>)>
    decreases items.len(),
{
    if items.len() == 0 {
        Seq::empty()
    } else {
        let rest = buttons_of(items.drop_last());
        match button_of(items.last()) {
            Some(b) => rest.push(b),
            None => rest,
        }
    }
}

/// The labels and links of buttons.
pub open spec fn buttons_view(buttons: Seq<ActivityButton>) -> Seq<(Seq<char>, Seq<char>)> {
    buttons.map_values(|b: ActivityButton| (b.label@, b.url@))
}

/// The assets read from a map's entries.
pub open spec fn assets_from(e: Seq<(Seq<char>, ValueView)>, a: ActivityAssets) -> bool {
    &&& opt_str(a.large_image) == str_field(e, "large_image"@)
    &&& opt_str(a.large_text) == str_field(e, "large_text"@)
    &&& opt_str(a.large_url) == str_field(e, "large_url"@)
    &&& opt_str(a.small_image) == str_field(e, "small_image"@)
    &&& opt_str(a.small_text) == str_field(e, "small_text"@)
    &&& opt_str(a.small_url) == str_field(e, "small_url"@)
}

/// The timestamps read from a map's entries.
pub open spec fn timestamps_from(e: Seq<(Seq<char>, ValueView)>, t: ActivityTimestamps) -> bool {
    t.start == uint_field(e, "start"@) && t.end == uint_field(e, "end"@)
}

/// A nested part read from the value under a key: present exactly when that
/// value is a map, and then read from its entries by `from`.
pub open spec fn part_from<T>(
    v: Option<ValueView>,
    x: Option<T>,
    from: spec_fn(Seq<(Seq<char>, ValueView)>, T) -> bool,
) -> bool {
    match v {
        Some(ValueView::Dict(e)) => x matches Some(y) && from(e, y),
        _ => x is None,
    }
}

/// The activity read from a map's entries.
pub open spec fn activity_from(e: Seq<(Seq<char>, ValueView)>, a: Activity) -> bool {
    &&& a.ty == match str_field(e, "type"@) {
        Some(s) => match ActivityType::spec_from_name(s) {
            Some(t) => t,
            None => ActivityType::Playing,
        },
        None => ActivityType::Playing,
    }
    &&& a.status_display_type == match str_field(e, "status_display_type"@) {
        Some(s) => match StatusDisplayType::spec_from_name(s) {
            Some(t) => t,
            None => StatusDisplayType::Name,
        },
        None => StatusDisplayType::Name,
    }
    &&& opt_str(a.details) == str_field(e, "details"@)
    &&& opt_str(a.details_url) == str_field(e, "details_url"@)
    &&& opt_str(a.state) == str_field(e, "state"@)
    &&& opt_str(a.state_url) == str_field(e, "state_url"@)
    &&& part_from(dict_get(e, "assets"@), a.assets, |e2, x| assets_from(e2, x))
    &&& part_from(dict_get(e, "timestamps"@), a.timestamps, |e2, x| timestamps_from(e2, x))
    &&& buttons_view(a.buttons@) == match dict_get(e, "buttons"@) {
        Some(ValueView::Array(items)) => buttons_of(items),
        _ => Seq::empty(),
    }
    &&& a.is_idle == match bool_field(e, "is_idle"@) {
        Some(b) => b,
        None => false,
    }
}

/// What reading an activity from a decoded part gives.
pub open spec fn activity_result(v: ValueView, r: Result<Activity, CordError>) -> bool {
    match v {
        ValueView::Dict(e) => r matches Ok(a) && activity_from(e, a),
        _ => r matches Err(CordError::Invalid(m)) && m@ == "Invalid activity"@,
    }
}

impl ActivityButton {
    /// Reads a button from the entries of a map.
    fn from_entries(e: &Vec<(String, Value)>) -> (r: Result<ActivityButton, CordError>)
        ensures
            match (str_field(entries_view(e@), "label"@), str_field(entries_view(e@), "url"@)) {
                (Some(l), Some(u)) => r matches Ok(b) && b.label@ == l && b.url@ == u,
                (None, _) => r matches Err(CordError::MissingField(f)) && f@ == "label"@,
                (Some(_), None) => r matches Err(CordError::MissingField(f)) && f@ == "url"@,
            },
    {
        let label = match get_str(e, "label") {
            Some(s) => s,
            None => return Err(CordError::MissingField("label")),
        };
        let url = match get_str(e, "url") {
            Some(s) => s,
            None => return Err(CordError::MissingField("url")),
        };
        Ok(ActivityButton { label, url })
    }

    /// Reads a button from a decoded message part: a map with the strings
    /// `label` and `url`.
    pub fn deserialize(input: Value) -> (r: Result<ActivityButton, CordError>)
        ensures
            match input@ {
                ValueView::Dict(e) => match (str_field(e, "label"@), str_field(e, "url"@)) {
                    (Some(l), Some(u)) => r matches Ok(b) && b.label@ == l && b.url@ == u,
                    (None, _) => r matches Err(CordError::MissingField(f)) && f@ == "label"@,
                    (Some(_), None) => r matches Err(CordError::MissingField(f)) && f@ == "url"@,
                },
                _ => r matches Err(CordError::Invalid(m)) && m@ == "Invalid activity button"@,
            },
    {
        match input.as_map() {
            Some(e) => Self::from_entries(e),
            None => Err(CordError::Invalid("Invalid activity button")),
        }
    }
}

/// The well-formed buttons among `items`, in order.
fn buttons_from_items(items: &[Value]) -> (r: Vec<ActivityButton>)
    ensures
        buttons_view(r@) == buttons_of(items_view(items@)),
{
    let ghost iv = items_view(items@);
    proof {
        crate::protocol::msgpack::value::lemma_items_view(items@);
    }
    let mut out: Vec<ActivityButton> = Vec::new();
    let mut i: usize = 0;
    while i < items.len()
        invariant
            i <= items@.len(),
            iv == items_view(items@),
            iv.len() == items@.len(),
            forall|j: int| 0 <= j < items@.len() ==> #[trigger] iv[j] == items@[j]@,
            buttons_view(out@) == buttons_of(iv.subrange(0, i as int)),
        decreases items@.len() - i,
    {
        assert(iv.subrange(0, i + 1).drop_last() =~= iv.subrange(0, i as int));
        assert(iv.subrange(0, i + 1).last() == items@[i as int]@);
        match items[i].as_map() {
            Some(e) => match ActivityButton::from_entries(e) {
                Ok(b) => {
                    let ghost before = out@;
                    out.push(b);
                    assert(buttons_view(out@) =~= buttons_view(before).push(
                        (out@.last().label@, out@.last().url@),
                    ));
                },
                Err(_) => {},
            },
            None => {},
        }
        i = i + 1;
    }
    assert(iv.subrange(0, items@.len() as int) =~= iv);
    out
}

impl ActivityAssets {
    fn from_entries(e: &Vec<(String, Value)>) -> (r: ActivityAssets)
        ensures
            assets_from(entries_view(e@), r),
    {
        ActivityAssets {
            large_image: get_str(e, "large_image"),
            large_text: get_str(e, "large_text"),
            large_url: get_str(e, "large_url"),
            small_image: get_str(e, "small_image"),
            small_text: get_str(e, "small_text"),
            small_url: get_str(e, "small_url"),
        }
    }

    /// Reads assets from a decoded message part: a map whose string entries
    /// `large_image`, `large_text`, `large_url`, `small_image`, `small_text`
    /// and `small_url` are taken where present.
    pub fn deserialize(input: Value) -> (r: Result<ActivityAssets, CordError>)
        ensures
            match input@ {
                ValueView::Dict(e) => r matches Ok(a) && assets_from(e, a),
                _ => r matches Err(CordError::Invalid(m)) && m@ == "Invalid activity assets"@,
            },
    {
        match input.as_map() {
            Some(e) => Ok(Self::from_entries(e)),
            None => Err(CordError::Invalid("Invalid activity assets")),
        }
    }
}

impl ActivityTimestamps {
    fn from_entries(e: &Vec<(String, Value)>) -> (r: ActivityTimestamps)
        ensures
            timestamps_from(entries_view(e@), r),
    {
        ActivityTimestamps { start: get_uint(e, "start"), end: get_uint(e, "end") }
    }

    /// Reads timestamps from a decoded message part: a map whose unsigned
    /// entries `start` and `end` are taken where present.
    pub fn deserialize(input: Value) -> (r: Result<ActivityTimestamps, CordError>)
        ensures
            match input@ {
                ValueView::Dict(e) => r matches Ok(t) && timestamps_from(e, t),
                _ => r matches Err(CordError::Invalid(m)) && m@
                    == "Invalid activity timestamps"@,
            },
    {
        match input.as_map() {
            Some(e) => Ok(Self::from_entries(e)),
            None => Err(CordError::Invalid("Invalid activity timestamps")),
        }
    }
}

impl Activity {
    pub(crate) fn from_entries(e: &Vec<(String, Value)>) -> (r: Activity)
        ensures
            activity_from(entries_view(e@), r),
    {
        let ty = match dict_get_entry(e, "type") {
            Some(v) => match v.as_str() {
                Some(s) => match ActivityType::from_str(s) {
                    Ok(t) => t,
                    Err(_) => ActivityType::Playing,
                },
                None => ActivityType::Playing,
            },
            None => ActivityType::Playing,
        };
        let status_display_type = match dict_get_entry(e, "status_display_type") {
            Some(v) => match v.as_str() {
                Some(s) => match StatusDisplayType::from_str(s) {
                    Ok(t) => t,
                    Err(_) => StatusDisplayType::Name,
                },
                None => StatusDisplayType::Name,
            },
            None => StatusDisplayType::Name,
        };
        let details = get_str(e, "details");
        let details_url = get_str(e, "details_url");
        let state = get_str(e, "state");
        let state_url = get_str(e, "state_url");
        let assets = match dict_get_entry(e, "assets") {
            Some(v) => match v.as_map() {
                Some(m) => Some(ActivityAssets::from_entries(m)),
                None => None,
            },
            None => None,
        };
        let timestamps = match dict_get_entry(e, "timestamps") {
            Some(v) => match v.as_map() {
                Some(m) => Some(ActivityTimestamps::from_entries(m)),
                None => None,
            },
            None => None,
        };
        let buttons = match dict_get_entry(e, "buttons") {
            Some(v) => match v.as_array() {
                Some(items) => buttons_from_items(items),
                None => Vec::new(),
            },
            None => Vec::new(),
        };
        let is_idle = match get_bool(e, "is_idle") {
            Some(b) => b,
            None => false,
        };
        let r = Activity {
            ty,
            status_display_type,
            details,
            details_url,
            state,
            state_url,
            assets,
            timestamps,
            buttons,
            is_idle,
        };
        assert(buttons_view(Seq::<ActivityButton>::empty()) =~= Seq::empty());
        r
    }

    /// Reads an activity from a decoded message part; see `deserialize`.
    pub(crate) fn from_value(input: &Value) -> (r: Result<Activity, CordError>)
        ensures
            activity_result(input@, r),
    {
        match input.as_map() {
            Some(e) => Ok(Self::from_entries(e)),
            None => Err(CordError::Invalid("Invalid activity")),
        }
    }

    /// Reads an activity from a decoded message part.
    ///
    /// The part must be a map. `type` and `status_display_type` are read
    /// from their names and default to playing and name; `details`,
    /// `details_url`, `state` and `state_url` are taken where they are
    /// strings; `assets` and `timestamps` where they are maps; `buttons`
    /// keeps the well-formed buttons of an array; `is_idle` defaults to
    /// false.
    pub fn deserialize(input: Value) -> (r: Result<Activity, CordError>)
        ensures
            activity_result(input@, r),
    {
        Self::from_value(&input)
    }
}

/// The content of an activity's assets.
pub struct AssetsView {
    pub large_image: Option<Seq<char>>,
    pub large_text: Option<Seq<char>>,
    pub large_url: Option<Seq<char>>,
    pub small_image: Option<Seq<char>>,
    pub small_text: Option<Seq<char>>,
    pub small_url: Option<Seq<char>>,
}

impl View for ActivityAssets {
    type V = AssetsView;

    open spec fn view(&self) -> AssetsView {
        AssetsView {
            large_image: opt_str(self.large_image),
            large_text: opt_str(self.large_text),
            large_url: opt_str(self.large_url),
            small_image: opt_str(self.small_image),
            small_text: opt_str(self.small_text),
            small_url: opt_str(self.small_url),
        }
    }
}

/// The content of an activity: texts as character sequences.
pub struct ActivityView {
    pub ty: ActivityType,
    pub status_display_type: StatusDisplayType,
    pub details: Option<Seq<char>>,
    pub details_url: Option<Seq<char>>,
    pub state: Option<Seq<char>>,
    pub state_url: Option<Seq<char>>,
    pub assets: Option<AssetsView>,
    pub timestamps: Option<ActivityTimestamps>,
    pub buttons: Seq<(Seq<char>, Seq<char>)>,
    pub is_idle: bool,
}

/// The view of optional assets.
pub open spec fn opt_assets(a: Option<ActivityAssets>) -> Option<AssetsView> {
    match a {
        Some(x) => Some(x@),
        None => None,
    }
}

impl View for Activity {
    type V = ActivityView;

    open spec fn view(&self) -> ActivityView {
        ActivityView {
            ty: self.ty,
            status_display_type: self.status_display_type,
            details: opt_str(self.details),
            details_url: opt_str(self.details_url),
            state: opt_str(self.state),
            state_url: opt_str(self.state_url),
            assets: opt_assets(self.assets),
            timestamps: self.timestamps,
            buttons: buttons_view(self.buttons@),
            is_idle: self.is_idle,
        }
    }
}

/// A copy of an optional text.
pub fn copy_opt_str(o: &Option<String>) -> (r: Option<String>)
    ensures
        opt_str(r) == opt_str(*o),
{
    match o {
        Some(s) => Some(s.clone()),
        None => None,
    }
}

/// Whether two optional texts are the same.
pub fn same_opt_str(a: &Option<String>, b: &Option<String>) -> (r: bool)
    ensures
        r == (opt_str(*a) == opt_str(*b)),
{
    match (a, b) {
        (Some(x), Some(y)) => str_eq(x.as_str(), y.as_str()),
        (None, None) => true,
        _ => false,
    }
}

impl ActivityButton {
    /// A copy of the button.
    pub fn duplicate(&self) -> (r: ActivityButton)
        ensures
            r.label@ == self.label@,
            r.url@ == self.url@,
    {
        ActivityButton { label: self.label.clone(), url: self.url.clone() }
    }
}

impl ActivityAssets {
    /// A copy of the assets.
    pub fn duplicate(&self) -> (r: ActivityAssets)
        ensures
            r@ == self@,
    {
        ActivityAssets {
            large_image: copy_opt_str(&self.large_image),
            large_text: copy_opt_str(&self.large_text),
            large_url: copy_opt_str(&self.large_url),
            small_image: copy_opt_str(&self.small_image),
            small_text: copy_opt_str(&self.small_text),
            small_url: copy_opt_str(&self.small_url),
        }
    }

    /// Whether two sets of assets are the same.
    pub fn same(&self, other: &ActivityAssets) -> (r: bool)
        ensures
            r == (self@ == other@),
    {
        same_opt_str(&self.large_image, &other.large_image) && same_opt_str(
            &self.large_text,
            &other.large_text,
        ) && same_opt_str(&self.large_url, &other.large_url) && same_opt_str(
            &self.small_image,
            &other.small_image,
        ) && same_opt_str(&self.small_text, &other.small_text) && same_opt_str(
            &self.small_url,
            &other.small_url,
        )
    }
}

/// A copy of a list of buttons.
pub fn copy_buttons(buttons: &Vec<ActivityButton>) -> (r: Vec<ActivityButton>)
    ensures
        buttons_view(r@) == buttons_view(buttons@),
{
    let mut out: Vec<ActivityButton> = Vec::new();
    let mut i: usize = 0;
    while i < buttons.len()
        invariant
            i <= buttons@.len(),
            out@.len() == i,
            forall|j: int|
                0 <= j < i ==> (#[trigger] out@[j]).label@ == buttons@[j].label@ && out@[j].url@
                    == buttons@[j].url@,
        decreases buttons@.len() - i,
    {
        out.push(buttons[i].duplicate());
        i = i + 1;
    }
    assert(buttons_view(out@) =~= buttons_view(buttons@));
    out
}

/// Whether two lists of buttons are the same.
pub fn same_buttons(a: &Vec<ActivityButton>, b: &Vec<ActivityButton>) -> (r: bool)
    ensures
        r == (buttons_view(a@) == buttons_view(b@)),
{
    if a.len() != b.len() {
        assert(buttons_view(a@).len() != buttons_view(b@).len());
        return false;
    }
    let mut i: usize = 0;
    while i < a.len()
        invariant
            i <= a@.len(),
            a@.len() == b@.len(),
            forall|j: int| 0 <= j < i ==> #[trigger] buttons_view(a@)[j] == buttons_view(b@)[j],
        decreases a@.len() - i,
    {
        if !str_eq(a[i].label.as_str(), b[i].label.as_str()) || !str_eq(
            a[i].url.as_str(),
            b[i].url.as_str(),
        ) {
            assert(buttons_view(a@)[i as int] != buttons_view(b@)[i as int]);
            return false;
        }
        i = i + 1;
    }
    assert(buttons_view(a@) =~= buttons_view(b@));
    true
}

impl Activity {
    /// A copy of the activity.
    pub fn duplicate(&self) -> (r: Activity)
        ensures
            r@ == self@,
    {
        let assets = match &self.assets {
            Some(a) => Some(a.duplicate()),
            None => None,
        };
        Activity {
            ty: self.ty,
            status_display_type: self.status_display_type,
            details: copy_opt_str(&self.details),
            details_url: copy_opt_str(&self.details_url),
            state: copy_opt_str(&self.state),
            state_url: copy_opt_str(&self.state_url),
            assets,
            timestamps: self.timestamps,
            buttons: copy_buttons(&self.buttons),
            is_idle: self.is_idle,
        }
    }

    /// Whether two activities are the same.
    pub fn same(&self, other: &Activity) -> (r: bool)
        ensures
            r == (self@ == other@),
    {
        let assets_same = match (&self.assets, &other.assets) {
            (Some(a), Some(b)) => a.same(b),
            (None, None) => true,
            _ => false,
        };
        let ts_same = match (self.timestamps, other.timestamps) {
            (Some(a), Some(b)) => a.start == b.start && a.end == b.end,
            (None, None) => true,
            _ => false,
        };
        self.ty == other.ty && self.status_display_type == other.status_display_type
            && same_opt_str(&self.details, &other.details) && same_opt_str(
            &self.details_url,
            &other.details_url,
        ) && same_opt_str(&self.state, &other.state) && same_opt_str(
            &self.state_url,
            &other.state_url,
        ) && assets_same && ts_same && same_buttons(&self.buttons, &other.buttons)
            && self.is_idle == other.is_idle
    }
}

/// The JSON members of a button: its label and its link.
pub open spec fn button_members(label: Seq<char>, url: Seq<char>) -> Seq<(Seq<char>, JsonView)> {
    seq![("label"@, JsonView::String(label)), ("url"@, JsonView::String(url))]
}

impl Serialize for ActivityButton {
    open spec fn spec_fields(&self) -> Seq<(Seq<char>, JsonView)> {
        button_members(self.label@, self.url@)
    }

    fn serialize_fields(&self) -> (r: Vec<(String, JsonRef)>) {
        let mut r: Vec<(String, JsonRef)> = Vec::new();
        push_member(&mut r, "label", JsonRef::String(self.label.clone()));
        push_member(&mut r, "url", JsonRef::String(self.url.clone()));
        assert(json_fields_view(r@) =~= self.spec_fields());
        r
    }
}

/// The JSON members of assets: each image, text and link that is set.
pub open spec fn assets_members(a: AssetsView) -> Seq<(Seq<char>, JsonView)> {
    opt_member("large_image"@, a.large_image) + opt_member("large_text"@, a.large_text)
        + opt_member("large_url"@, a.large_url) + opt_member("small_image"@, a.small_image)
        + opt_member("small_text"@, a.small_text) + opt_member("small_url"@, a.small_url)
}

impl Serialize for ActivityAssets {
    open spec fn spec_fields(&self) -> Seq<(Seq<char>, JsonView)> {
        assets_members(self@)
    }

    fn serialize_fields(&self) -> (r: Vec<(String, JsonRef)>) {
        let mut r: Vec<(String, JsonRef)> = Vec::new();
        push_opt_member(&mut r, "large_image", &self.large_image);
        push_opt_member(&mut r, "large_text", &self.large_text);
        push_opt_member(&mut r, "large_url", &self.large_url);
        push_opt_member(&mut r, "small_image", &self.small_image);
        push_opt_member(&mut r, "small_text", &self.small_text);
        push_opt_member(&mut r, "small_url", &self.small_url);
        assert(json_fields_view(r@) =~= self.spec_fields());
        r
    }
}

/// The JSON members of timestamps: the start and end that are set.
pub open spec fn timestamps_members(t: ActivityTimestamps) -> Seq<(Seq<char>, JsonView)> {
    (match t.start {
        Some(s) => seq![("start"@, JsonView::Number(s))],
        None => Seq::empty(),
    }) + (match t.end {
        Some(e) => seq![("end"@, JsonView::Number(e))],
        None => Seq::empty(),
    })
}

impl Serialize for ActivityTimestamps {
    open spec fn spec_fields(&self) -> Seq<(Seq<char>, JsonView)> {
        timestamps_members(*self)
    }

    fn serialize_fields(&self) -> (r: Vec<(String, JsonRef)>) {
        let mut r: Vec<(String, JsonRef)> = Vec::new();
        if let Some(s) = self.start {
            push_member(&mut r, "start", JsonRef::Number(s));
        }
        if let Some(e) = self.end {
            push_member(&mut r, "end", JsonRef::Number(e));
        }
        assert(json_fields_view(r@) =~= self.spec_fields());
        r
    }
}

/// The JSON members of an activity: its type and status display codes,
/// each text that is set, its assets and timestamps when set, and its
/// buttons when there are any.
pub open spec fn activity_members(a: ActivityView) -> Seq<(Seq<char>, JsonView)> {
    seq![
        ("type"@, JsonView::Number(a.ty.spec_code() as u64)),
        ("status_display_type"@, JsonView::Number(a.status_display_type.spec_code() as u64)),
    ] + opt_member("details"@, a.details) + opt_member("details_url"@, a.details_url)
        + opt_member("state"@, a.state) + opt_member("state_url"@, a.state_url) + assets_member(
        a.assets,
    ) + timestamps_member(a.timestamps) + buttons_member(a.buttons)
}

/// The JSON member holding the buttons, when there are any.
pub open spec fn buttons_member(buttons: Seq<(Seq<char>, Seq<char>)>) -> Seq<(Seq<char>, JsonView)> {
    if buttons.len() > 0 {
        seq![
            ("buttons"@, JsonView::Array(
                buttons.map_values(|b: (Seq<char>, Seq<char>)| JsonView::Object(button_members(b.0, b.1))),
            )),
        ]
    } else {
        Seq::empty()
    }
}

/// Adds the member holding the buttons, when there are any.
fn push_buttons_member(r: &mut Vec<(String, JsonRef)>, buttons: &Vec<ActivityButton>)
    ensures
        json_fields_view(final(r)@) == json_fields_view(old(r)@) + buttons_member(buttons_view(buttons@)),
{
    if buttons.len() > 0 {
        let mut items: Vec<JsonRef> = Vec::new();
        let mut i: usize = 0;
        while i < buttons.len()
            invariant
                i <= buttons@.len(),
                items@.len() == i,
                forall|j: int| 0 <= j < i ==> #[trigger] items@[j]@ == JsonView::Object(
                    button_members(buttons@[j].label@, buttons@[j].url@),
                ),
            decreases buttons@.len() - i,
        {
            items.push(JsonRef::Object(buttons[i].serialize_fields()));
            i = i + 1;
        }
        proof {
            lemma_refs_view(items@);
            assert(refs_view(items@) =~= buttons_view(buttons@).map_values(
                |b: (Seq<char>, Seq<char>)| JsonView::Object(button_members(b.0, b.1)),
            ));
        }
        push_member(r, "buttons", JsonRef::Array(items));
    } else {
        assert(json_fields_view(r@) =~= json_fields_view(old(r)@) + buttons_member(buttons_view(buttons@)));
    }
}

/// The JSON member holding the assets, when set.
pub open spec fn assets_member(a: Option<AssetsView>) -> Seq<(Seq<char>, JsonView)> {
    match a {
        Some(x) => seq![("assets"@, JsonView::Object(assets_members(x)))],
        None => Seq::empty(),
    }
}

/// The JSON member holding the timestamps, when set.
pub open spec fn timestamps_member(t: Option<ActivityTimestamps>) -> Seq<(Seq<char>, JsonView)> {
    match t {
        Some(x) => seq![("timestamps"@, JsonView::Object(timestamps_members(x)))],
        None => Seq::empty(),
    }
}

impl Serialize for Activity {
    open spec fn spec_fields(&self) -> Seq<(Seq<char>, JsonView)> {
        activity_members(self@)
    }

    fn serialize_fields(&self) -> (r: Vec<(String, JsonRef)>) {
        let mut r: Vec<(String, JsonRef)> = Vec::new();
        push_member(&mut r, "type", JsonRef::Number(self.ty.code() as u64));
        push_member(&mut r, "status_display_type", JsonRef::Number(self.status_display_type.code() as u64));
        let ghost s0 = json_fields_view(r@);
        push_opt_member(&mut r, "details", &self.details);
        push_opt_member(&mut r, "details_url", &self.details_url);
        push_opt_member(&mut r, "state", &self.state);
        push_opt_member(&mut r, "state_url", &self.state_url);
        let ghost s1 = json_fields_view(r@);
        match &self.assets {
            Some(a) => push_member(&mut r, "assets", JsonRef::Object(a.serialize_fields())),
            None => {},
        }
        let ghost s2 = json_fields_view(r@);
        assert(s2 =~= s1 + assets_member(opt_assets(self.assets)));
        match &self.timestamps {
            Some(t) => push_member(&mut r, "timestamps", JsonRef::Object(t.serialize_fields())),
            None => {},
        }
        let ghost s3 = json_fields_view(r@);
        assert(s3 =~= s2 + timestamps_member(self.timestamps));
        push_buttons_member(&mut r, &self.buttons);
        proof {
            let a = self@;
            assert(s0 =~= seq![
                ("type"@, JsonView::Number(a.ty.spec_code() as u64)),
                ("status_display_type"@, JsonView::Number(a.status_display_type.spec_code() as u64)),
            ]);
            assert(activity_members(a) =~= s0 + opt_member("details"@, a.details) + opt_member("details_url"@, a.details_url)
                + opt_member("state"@, a.state) + opt_member("state_url"@, a.state_url)
                + assets_member(a.assets) + timestamps_member(a.timestamps) + buttons_member(a.buttons));
        }
        assert(json_fields_view(r@) =~= self.spec_fields());
        r
    }
}

/// The assets' keys are six different texts.
proof fn lemma_asset_keys()
    ensures
        "large_image"@.len() == 11 && "large_image"@[0] == 'l',
        "large_text"@.len() == 10 && "large_text"@[0] == 'l',
        "large_url"@.len() == 9 && "large_url"@[0] == 'l',
        "small_image"@.len() == 11 && "small_image"@[0] == 's',
        "small_text"@.len() == 10 && "small_text"@[0] == 's',
        "small_url"@.len() == 9 && "small_url"@[0] == 's',
{
    reveal_strlit("large_image");
    reveal_strlit("large_text");
    reveal_strlit("large_url");
    reveal_strlit("small_image");
    reveal_strlit("small_text");
    reveal_strlit("small_url");
}

/// Where a key of the written assets leads.
proof fn lemma_assets_key(a: ActivityAssets, k: Seq<char>)
    ensures
        member(a.spec_fields(), k) == if k == "large_image"@ {
            text_value(opt_str(a.large_image))
        } else if k == "large_text"@ {
            text_value(opt_str(a.large_text))
        } else if k == "large_url"@ {
            text_value(opt_str(a.large_url))
        } else if k == "small_image"@ {
            text_value(opt_str(a.small_image))
        } else if k == "small_text"@ {
            text_value(opt_str(a.small_text))
        } else if k == "small_url"@ {
            text_value(opt_str(a.small_url))
        } else {
            None
        },
{
    let v = a@;
    let m1 = opt_member("large_image"@, v.large_image);
    let m2 = opt_member("large_text"@, v.large_text);
    let m3 = opt_member("large_url"@, v.large_url);
    let m4 = opt_member("small_image"@, v.small_image);
    let m5 = opt_member("small_text"@, v.small_text);
    let m6 = opt_member("small_url"@, v.small_url);
    lemma_member_concat(m1 + m2 + m3 + m4 + m5, m6, k);
    lemma_member_concat(m1 + m2 + m3 + m4, m5, k);
    lemma_member_concat(m1 + m2 + m3, m4, k);
    lemma_member_concat(m1 + m2, m3, k);
    lemma_member_concat(m1, m2, k);
    lemma_member_opt("large_image"@, v.large_image, k);
    lemma_member_opt("large_text"@, v.large_text, k);
    lemma_member_opt("large_url"@, v.large_url, k);
    lemma_member_opt("small_image"@, v.small_image, k);
    lemma_member_opt("small_text"@, v.small_text, k);
    lemma_member_opt("small_url"@, v.small_url, k);
    lemma_asset_keys();
}

/// Written assets hold, under each of `large_image`, `large_text`,
/// `large_url`, `small_image`, `small_text` and `small_url`, the assets'
/// field of that name when it is set, and nothing when it is not.
pub proof fn lemma_assets_written_by_key(a: ActivityAssets)
    ensures
        member(a.spec_fields(), "large_image"@) == text_value(opt_str(a.large_image)),
        member(a.spec_fields(), "large_text"@) == text_value(opt_str(a.large_text)),
        member(a.spec_fields(), "large_url"@) == text_value(opt_str(a.large_url)),
        member(a.spec_fields(), "small_image"@) == text_value(opt_str(a.small_image)),
        member(a.spec_fields(), "small_text"@) == text_value(opt_str(a.small_text)),
        member(a.spec_fields(), "small_url"@) == text_value(opt_str(a.small_url)),
{
    lemma_asset_keys();
    lemma_assets_key(a, "large_image"@);
    lemma_assets_key(a, "large_text"@);
    lemma_assets_key(a, "large_url"@);
    lemma_assets_key(a, "small_image"@);
    lemma_assets_key(a, "small_text"@);
    lemma_assets_key(a, "small_url"@);
}

/// The activity's keys are nine different texts.
proof fn lemma_activity_keys()
    ensures
        "type"@.len() == 4 && "type"@[0] == 't',
        "status_display_type"@.len() == 19,
        "details"@.len() == 7 && "details"@[0] == 'd',
        "details_url"@.len() == 11,
        "state"@.len() == 5,
        "state_url"@.len() == 9,
        "assets"@.len() == 6,
        "timestamps"@.len() == 10,
        "buttons"@.len() == 7 && "buttons"@[0] == 'b',
        "start"@.len() == 5,
        "end"@.len() == 3,
        "label"@.len() == 5,
        "url"@.len() == 3,
{
    reveal_strlit("type");
    reveal_strlit("status_display_type");
    reveal_strlit("details");
    reveal_strlit("details_url");
    reveal_strlit("state");
    reveal_strlit("state_url");
    reveal_strlit("assets");
    reveal_strlit("timestamps");
    reveal_strlit("buttons");
    reveal_strlit("start");
    reveal_strlit("end");
    reveal_strlit("label");
    reveal_strlit("url");
}

/// The JSON that the assets, timestamps or buttons of an activity are
/// written as, when they are there.
pub open spec fn part_value<T>(o: Option<T>, written: spec_fn(T) -> JsonView) -> Option<JsonView> {
    match o {
        Some(x) => Some(written(x)),
        None => None,
    }
}

/// Looking a key up in a member list that holds at most one member.
proof fn lemma_member_part<T>(k: Seq<char>, o: Option<T>, written: spec_fn(T) -> JsonView, key: Seq<char>)
    ensures
        member(
            match o {
                Some(x) => seq![(k, written(x))],
                None => Seq::empty(),
            },
            key,
        ) == if k == key {
            part_value(o, written)
        } else {
            None
        },
{
    match o {
        Some(x) => lemma_member_single(k, written(x), key),
        None => {},
    }
}

/// Where a key of a written activity leads.
proof fn lemma_activity_key(a: Activity, k: Seq<char>)
    ensures
        member(a.spec_fields(), k) == if k == "type"@ {
            Some(JsonView::Number(a.ty.spec_code() as u64))
        } else if k == "status_display_type"@ {
            Some(JsonView::Number(a.status_display_type.spec_code() as u64))
        } else if k == "details"@ {
            text_value(opt_str(a.details))
        } else if k == "details_url"@ {
            text_value(opt_str(a.details_url))
        } else if k == "state"@ {
            text_value(opt_str(a.state))
        } else if k == "state_url"@ {
            text_value(opt_str(a.state_url))
        } else if k == "assets"@ {
            part_value(a.assets, |x: ActivityAssets| JsonView::Object(x.spec_fields()))
        } else if k == "timestamps"@ {
            part_value(a.timestamps, |x: ActivityTimestamps| JsonView::Object(x.spec_fields()))
        } else if k == "buttons"@ {
            member(buttons_member(buttons_view(a.buttons@)), k)
        } else {
            None
        },
{
    let v = a@;
    let t = ("type"@, JsonView::Number(v.ty.spec_code() as u64));
    let d = ("status_display_type"@, JsonView::Number(v.status_display_type.spec_code() as u64));
    let m1 = opt_member("details"@, v.details);
    let m2 = opt_member("details_url"@, v.details_url);
    let m3 = opt_member("state"@, v.state);
    let m4 = opt_member("state_url"@, v.state_url);
    let ma = assets_member(v.assets);
    let mt = timestamps_member(v.timestamps);
    let mb = buttons_member(v.buttons);
    let head = seq![t, d];
    assert(head =~= seq![t] + seq![d]);
    lemma_member_concat(head + m1 + m2 + m3 + m4 + ma + mt, mb, k);
    lemma_member_concat(head + m1 + m2 + m3 + m4 + ma, mt, k);
    lemma_member_concat(head + m1 + m2 + m3 + m4, ma, k);
    lemma_member_concat(head + m1 + m2 + m3, m4, k);
    lemma_member_concat(head + m1 + m2, m3, k);
    lemma_member_concat(head + m1, m2, k);
    lemma_member_concat(head, m1, k);
    lemma_member_concat(seq![t], seq![d], k);
    lemma_member_single(t.0, t.1, k);
    lemma_member_single(d.0, d.1, k);
    lemma_member_opt("details"@, v.details, k);
    lemma_member_opt("details_url"@, v.details_url, k);
    lemma_member_opt("state"@, v.state, k);
    lemma_member_opt("state_url"@, v.state_url, k);
    lemma_member_part("assets"@, a.assets, |x: ActivityAssets| JsonView::Object(x.spec_fields()), k);
    lemma_member_part(
        "timestamps"@,
        a.timestamps,
        |x: ActivityTimestamps| JsonView::Object(x.spec_fields()),
        k,
    );
    assert(ma == match a.assets {
        Some(x) => seq![("assets"@, (|x: ActivityAssets| JsonView::Object(x.spec_fields()))(x))],
        None => Seq::empty(),
    });
    assert(mt == match a.timestamps {
        Some(x) => seq![("timestamps"@, (|x: ActivityTimestamps| JsonView::Object(x.spec_fields()))(x))],
        None => Seq::empty(),
    });
    if v.buttons.len() > 0 {
        lemma_member_single("buttons"@, mb[0].1, k);
        assert(mb =~= seq![("buttons"@, mb[0].1)]);
    }
    lemma_activity_keys();
}

/// A written activity holds, under `type` and `status_display_type`, the
/// codes of its kind and of its status display; under each of `details`,
/// `details_url`, `state` and `state_url`, its text of that name, and no
/// member when it has none; under `assets` and `timestamps`, those parts
/// written as objects when it has them; and under `buttons`, the array of
/// its buttons in order, each written with its label and link, exactly when
/// it has any.
pub proof fn lemma_activity_written_by_key(a: Activity)
    ensures
        member(a.spec_fields(), "type"@) == Some(JsonView::Number(a.ty.spec_code() as u64)),
        member(a.spec_fields(), "status_display_type"@) == Some(
            JsonView::Number(a.status_display_type.spec_code() as u64),
        ),
        member(a.spec_fields(), "details"@) == text_value(opt_str(a.details)),
        member(a.spec_fields(), "details_url"@) == text_value(opt_str(a.details_url)),
        member(a.spec_fields(), "state"@) == text_value(opt_str(a.state)),
        member(a.spec_fields(), "state_url"@) == text_value(opt_str(a.state_url)),
        member(a.spec_fields(), "assets"@) == match a.assets {
            Some(x) => Some(JsonView::Object(x.spec_fields())),
            None => None,
        },
        member(a.spec_fields(), "timestamps"@) == match a.timestamps {
            Some(x) => Some(JsonView::Object(x.spec_fields())),
            None => None,
        },
        a.buttons@.len() == 0 ==> member(a.spec_fields(), "buttons"@) is None,
        a.buttons@.len() > 0 ==> (member(a.spec_fields(), "buttons"@) matches Some(JsonView::Array(items))
            && items.len() == a.buttons@.len() && forall|i: int|
            0 <= i < items.len() ==> #[trigger] items[i] == JsonView::Object(a.buttons@[i].spec_fields())),
{
    lemma_activity_keys();
    lemma_activity_key(a, "type"@);
    lemma_activity_key(a, "status_display_type"@);
    lemma_activity_key(a, "details"@);
    lemma_activity_key(a, "details_url"@);
    lemma_activity_key(a, "state"@);
    lemma_activity_key(a, "state_url"@);
    lemma_activity_key(a, "assets"@);
    lemma_activity_key(a, "timestamps"@);
    lemma_activity_key(a, "buttons"@);
    let mb = buttons_member(buttons_view(a.buttons@));
    if a.buttons@.len() > 0 {
        lemma_member_single("buttons"@, mb[0].1, "buttons"@);
        assert(mb =~= seq![("buttons"@, mb[0].1)]);
    } else {
        assert(mb =~= Seq::<(Seq<char>, JsonView)>::empty());
    }
}

/// Written timestamps hold their start under `start` and their end under
/// `end`, as numbers, each only when set; a written button holds its label
/// under `label` and its link under `url`.
pub proof fn lemma_timestamps_written_by_key(t: ActivityTimestamps, b: ActivityButton)
    ensures
        member(t.spec_fields(), "start"@) == match t.start {
            Some(s) => Some(JsonView::Number(s)),
            None => None,
        },
        member(t.spec_fields(), "end"@) == match t.end {
            Some(e) => Some(JsonView::Number(e)),
            None => None,
        },
        member(b.spec_fields(), "label"@) == Some(JsonView::String(b.label@)),
        member(b.spec_fields(), "url"@) == Some(JsonView::String(b.url@)),
{
    lemma_activity_keys();
    let ms = match t.start {
        Some(s) => seq![("start"@, JsonView::Number(s))],
        None => Seq::<(Seq<char>, JsonView)>::empty(),
    };
    let me = match t.end {
        Some(e) => seq![("end"@, JsonView::Number(e))],
        None => Seq::<(Seq<char>, JsonView)>::empty(),
    };
    lemma_member_concat(ms, me, "start"@);
    lemma_member_concat(ms, me, "end"@);
    lemma_member_part("start"@, t.start, |s: u64| JsonView::Number(s), "start"@);
    lemma_member_part("start"@, t.start, |s: u64| JsonView::Number(s), "end"@);
    lemma_member_part("end"@, t.end, |s: u64| JsonView::Number(s), "start"@);
    lemma_member_part("end"@, t.end, |s: u64| JsonView::Number(s), "end"@);
    assert(ms == match t.start {
        Some(x) => seq![("start"@, (|s: u64| JsonView::Number(s))(x))],
        None => Seq::empty(),
    });
    assert(me == match t.end {
        Some(x) => seq![("end"@, (|s: u64| JsonView::Number(s))(x))],
        None => Seq::empty(),
    });
    let l = ("label"@, JsonView::String(b.label@));
    let u = ("url"@, JsonView::String(b.url@));
    assert(b.spec_fields() =~= seq![l] + seq![u]);
    lemma_member_concat(seq![l], seq![u], "label"@);
    lemma_member_concat(seq![l], seq![u], "url"@);
    lemma_member_single(l.0, l.1, "label"@);
    lemma_member_single(l.0, l.1, "url"@);
    lemma_member_single(u.0, u.1, "url"@);
}

/// A button is read from a map exactly when its label is the string under
/// `label` and its link the string under `url`.
pub proof fn lemma_button_read_by_key(e: Seq<(Seq<char>, ValueView)>, label: Seq<char>, url: Seq<char>)
    ensures
        button_of(ValueView::Dict(e)) == Some((label, url)) <==> (dict_get(e, "label"@) == Some(
            ValueView::String(label),
        ) && dict_get(e, "url"@) == Some(ValueView::String(url))),
{
}

/// Read assets take each of their six texts from the key of the same name:
/// the string stored there, or nothing when none is.
pub proof fn lemma_assets_read_by_key(e: Seq<(Seq<char>, ValueView)>, a: ActivityAssets)
    requires
        assets_from(e, a),
    ensures
        text_under(e, "large_image"@, opt_str(a.large_image)),
        text_under(e, "large_text"@, opt_str(a.large_text)),
        text_under(e, "large_url"@, opt_str(a.large_url)),
        text_under(e, "small_image"@, opt_str(a.small_image)),
        text_under(e, "small_text"@, opt_str(a.small_text)),
        text_under(e, "small_url"@, opt_str(a.small_url)),
{
}

/// Read timestamps take their start and end from the keys of the same name,
/// when those hold whole numbers, and have none otherwise.
pub proof fn lemma_timestamps_read_by_key(e: Seq<(Seq<char>, ValueView)>, t: ActivityTimestamps)
    requires
        timestamps_from(e, t),
    ensures
        t.start matches Some(n) ==> uint_under(e, "start"@, n),
        t.end matches Some(n) ==> uint_under(e, "end"@, n),
        (forall|n: u64| uint_under(e, "start"@, n) ==> t.start == Some(n)),
        (forall|n: u64| uint_under(e, "end"@, n) ==> t.end == Some(n)),
{
}

/// The names of activity kinds are four different texts.
proof fn lemma_type_names()
    ensures
        "playing"@.len() == 7,
        "listening"@.len() == 9 && "listening"@[0] == 'l',
        "watching"@.len() == 8,
        "competing"@.len() == 9 && "competing"@[0] == 'c',
        "name"@.len() == 4,
        "state"@.len() == 5,
        "details"@.len() == 7,
{
    reveal_strlit("playing");
    reveal_strlit("listening");
    reveal_strlit("watching");
    reveal_strlit("competing");
    reveal_strlit("name");
    reveal_strlit("state");
    reveal_strlit("details");
}

/// A read activity takes each text from the key of the same name; it is
/// idle exactly when `is_idle` holds `true`; its kind and status display
/// follow the names under `type` and `status_display_type`; its assets and
/// timestamps are there exactly when their keys hold maps, and are read
/// from those maps key by key.
pub proof fn lemma_activity_read_by_key(e: Seq<(Seq<char>, ValueView)>, a: Activity)
    requires
        activity_from(e, a),
    ensures
        text_under(e, "details"@, opt_str(a.details)),
        text_under(e, "details_url"@, opt_str(a.details_url)),
        text_under(e, "state"@, opt_str(a.state)),
        text_under(e, "state_url"@, opt_str(a.state_url)),
        a.is_idle <==> bool_under(e, "is_idle"@, true),
        dict_get(e, "type"@) == Some(ValueView::String("listening"@)) ==> a.ty == ActivityType::Listening,
        dict_get(e, "type"@) == Some(ValueView::String("watching"@)) ==> a.ty == ActivityType::Watching,
        dict_get(e, "type"@) == Some(ValueView::String("competing"@)) ==> a.ty == ActivityType::Competing,
        !(dict_get(e, "type"@) matches Some(ValueView::String(_))) ==> a.ty == ActivityType::Playing,
        dict_get(e, "status_display_type"@) == Some(ValueView::String("state"@)) ==> a.status_display_type
            == StatusDisplayType::State,
        dict_get(e, "status_display_type"@) == Some(ValueView::String("details"@)) ==> a.status_display_type
            == StatusDisplayType::Details,
        dict_get(e, "assets"@) matches Some(ValueView::Dict(ae)) ==> (a.assets matches Some(x) && text_under(
            ae,
            "large_image"@,
            opt_str(x.large_image),
        ) && text_under(ae, "large_text"@, opt_str(x.large_text)) && text_under(
            ae,
            "small_image"@,
            opt_str(x.small_image),
        ) && text_under(ae, "small_text"@, opt_str(x.small_text))),
        !(dict_get(e, "assets"@) matches Some(ValueView::Dict(_))) ==> a.assets is None,
        !(dict_get(e, "timestamps"@) matches Some(ValueView::Dict(_))) ==> a.timestamps is None,
{
    lemma_type_names();
    match dict_get(e, "assets"@) {
        Some(ValueView::Dict(ae)) => {
            lemma_assets_read_by_key(ae, a.assets->0);
        },
        _ => {},
    }
}

} // verus!
