//! Device records as the device subsystem reports them, and the rule that
//! decides which of them belong to a seat.
use vstd::prelude::*;
use vstd::string::*;

verus! {

/// The file type of a device node, as filesystem metadata gives it.
#[derive(Clone, Copy, Debug, PartialEq, Eq, Structural)]
pub enum NodeKind {
    Block,
    Char,
    Fifo,
    Other,
}

/// Filesystem facts about a device node: its type, its mode bits as the
/// filesystem reports them, and its numeric owner.
#[derive(Clone, Copy, Debug, PartialEq, Eq, Structural)]
pub struct NodeMeta {
    pub kind: NodeKind,
    pub mode: u32,
    pub uid: u32,
    pub gid: u32,
}

/// A device node path, with the outcome of reading its metadata
/// (an error message when the lookup failed).
pub struct DeviceNode {
    pub path: String,
    pub meta: Result<NodeMeta, String>,
}

/// One device record: its node (if it has one), its properties in the order
/// reported, and its tags.
pub struct DeviceRecord {
    pub node: Option<DeviceNode>,
    pub properties: Vec<(String, String)>,
    pub tags: Vec<String>,
}

pub struct NodeView {
    pub path: Seq<char>,
    pub meta: Result<NodeMeta, String>,
}

pub struct RecordView {
    pub node: Option<NodeView>,
    pub properties: Seq<(Seq<char>, Seq<char>)>,
    pub tags: Seq<Seq<char>>,
}

/// The text of each pair of strings.
pub open spec fn pairs_view(v: Seq<(String, String)>) -> Seq<(Seq<char>, Seq<char>)> {
    v.map_values(|p: (String, String)| (p.0@, p.1@))
}

/// The text of each string.
pub open spec fn strings_view(v: Seq<String>) -> Seq<Seq<char>> {
    v.map_values(|s: String| s@)
}

impl View for DeviceNode {
    type V = NodeView;

    open spec fn view(&self) -> NodeView {
        NodeView { path: self.path@, meta: self.meta }
    }
}

impl View for DeviceRecord {
    type V = RecordView;

    open spec fn view(&self) -> RecordView {
        RecordView {
            node: match self.node {
                Some(n) => Some(n@),
                None => None,
            },
            properties: pairs_view(self.properties@),
            tags: strings_view(self.tags@),
        }
    }
}

/// The value of the first entry whose key is `key`.
pub open spec fn lookup(props: Seq<(Seq<char>, Seq<char>)>, key: Seq<char>) -> Option<Seq<char>>
    decreases props.len(),
{
    if props.len() == 0 {
        None
    } else if props[0].0 == key {
        Some(props[0].1)
    } else {
        lookup(props.drop_first(), key)
    }
}

/// The tag that marks a device as usable by some seat.
pub open spec fn seat_tag() -> Seq<char> {
    "seat"@
}

/// The default seat.
pub open spec fn default_seat() -> Seq<char> {
    "seat0"@
}

/// The property that assigns a device to a seat.
pub open spec fn seat_property() -> Seq<char> {
    "ID_SEAT"@
}

/// Whether a record belongs to `seat`. It must carry the "seat" tag. For the
/// default seat it must name no seat or the default one in `ID_SEAT`; for any
/// other seat it must also carry that seat's own tag.
pub open spec fn seat_accepts(seat: Seq<char>, d: RecordView) -> bool {
    d.tags.contains(seat_tag()) && if seat == default_seat() {
        match lookup(d.properties, seat_property()) {
            None => true,
            Some(v) => v == seat,
        }
    } else {
        d.tags.contains(seat)
    }
}

/// The value stored under `key` in `props`, taking the first entry with that key.
pub fn property_lookup<'a>(props: &'a Vec<(String, String)>, key: &String) -> (r: Option<&'a String>)
    ensures
        match r {
            Some(v) => lookup(pairs_view(props@), key@) == Some(v@),
            None => lookup(pairs_view(props@), key@).is_none(),
        },
{
    let ghost all = pairs_view(props@);
    assert(all.subrange(0, all.len() as int) =~= all);
    let mut i: usize = 0;
    while i < props.len()
        invariant
            i <= props.len(),
            all == pairs_view(props@),
            lookup(all, key@) == lookup(all.subrange(i as int, all.len() as int), key@),
        decreases props.len() - i,
    {
        let ghost rest = all.subrange(i as int, all.len() as int);
        assert(rest[0] == all[i as int]);
        if props[i].0 == *key {
            return Some(&props[i].1);
        }
        assert(rest.drop_first() =~= all.subrange(i + 1, all.len() as int));
        i = i + 1;
    }
    assert(all.subrange(i as int, all.len() as int).len() == 0);
    None
}

/// Whether `tags` holds `tag`.
pub fn has_tag(tags: &Vec<String>, tag: &String) -> (r: bool)
    ensures
        r == strings_view(tags@).contains(tag@),
{
    let ghost all = strings_view(tags@);
    let mut i: usize = 0;
    while i < tags.len()
        invariant
            i <= tags.len(),
            all == strings_view(tags@),
            forall|j: int| 0 <= j < i ==> all[j] != tag@,
        decreases tags.len() - i,
    {
        if tags[i] == *tag {
            assert(all[i as int] == tag@);
            return true;
        }
        i = i + 1;
    }
    false
}

/// The narrow view of a device that selection and augmentation read: its node
/// path and its properties.
pub trait UdevDevice {
    spec fn node_path(&self) -> Option<Seq<char>>;

    spec fn property(&self, key: Seq<char>) -> Option<Seq<char>>;

    fn devnode(&self) -> (r: Option<&String>)
        ensures
            match r {
                Some(p) => self.node_path() == Some(p@),
                None => self.node_path().is_none(),
            },
    ;

    fn property_value(&self, key: &String) -> (r: Option<&String>)
        ensures
            match r {
                Some(v) => self.property(key@) == Some(v@),
                None => self.property(key@).is_none(),
            },
    ;
}

impl UdevDevice for DeviceRecord {
    open spec fn node_path(&self) -> Option<Seq<char>> {
        match self.node {
            Some(n) => Some(n.path@),
            None => None,
        }
    }

    open spec fn property(&self, key: Seq<char>) -> Option<Seq<char>> {
        lookup(pairs_view(self.properties@), key)
    }

    fn devnode(&self) -> (r: Option<&String>) {
        match &self.node {
            Some(n) => Some(&n.path),
            None => None,
        }
    }

    fn property_value(&self, key: &String) -> (r: Option<&String>) {
        property_lookup(&self.properties, key)
    }
}

impl DeviceRecord {
    /// Whether this record belongs to `seat` (see `seat_accepts`).
    pub fn belongs_to_seat(&self, seat: &String) -> (r: bool)
        ensures
            r == seat_accepts(seat@, self@),
    {
        let seat_name = String::from_str("seat");
        if !has_tag(&self.tags, &seat_name) {
            return false;
        }
        let default_name = String::from_str("seat0");
        if *seat == default_name {
            let key = String::from_str("ID_SEAT");
            match self.property_value(&key) {
                None => true,
                Some(v) => *v == *seat,
            }
        } else {
            has_tag(&self.tags, seat)
        }
    }
}

/// The tags a device enumeration for `seat` must match, all of them: the
/// "seat" tag, and the seat's own tag unless it is the default seat.
pub fn enumeration_tags(seat: &String) -> (r: Vec<String>)
    ensures
        strings_view(r@) == if seat@ == default_seat() {
            seq![seat_tag()]
        } else {
            seq![seat_tag(), seat@]
        },
{
    let mut tags: Vec<String> = Vec::new();
    tags.push(String::from_str("seat"));
    let default_name = String::from_str("seat0");
    if *seat != default_name {
        tags.push(seat.clone());
    }
    assert(strings_view(tags@) =~= if seat@ == default_seat() {
        seq![seat_tag()]
    } else {
        seq![seat_tag(), seat@]
    });
    tags
}

} // verus!
