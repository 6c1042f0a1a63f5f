//! Profile management: the built-in profiles, the ordering of the profile
//! list by name, creation, update, deletion, import with automatic renaming
//! of a clashing id, and export.
//!
//! The list lives in memory; each change is first written through a
//! [`ProfileStore`], and the list changes only when the store succeeded.

pub mod builtin;
pub mod calls;
pub mod laws;

use vstd::prelude::*;
use vstd::utf8::encode_utf8;
use crate::common::DisplayParams;
use crate::config::{Profile, ProfileView};
use crate::profile::calls::{StoreCalls, StoreOp};
use crate::text::{chars_of, decimal, digits_value, lemma_digits_value_decimal, push_char, push_decimal, str_eq};

verus! {

// ---------------------------------------------------------------
// Ordering by name
// ---------------------------------------------------------------

/// Lexicographic order of byte strings: the first differing byte decides,
/// and a proper prefix comes first. This is the order of `str`.
pub open spec fn bytes_lt(a: Seq<u8>, b: Seq<u8>) -> bool
    decreases a.len(),
{
    if a.len() == 0 {
        b.len() > 0
    } else if b.len() == 0 {
        false
    } else if a[0] != b[0] {
        a[0] < b[0]
    } else {
        bytes_lt(a.drop_first(), b.drop_first())
    }
}

/// Profile `a` sorts strictly before `b`: its name is smaller, compared as
/// UTF-8 bytes.
pub open spec fn name_lt(a: ProfileView, b: ProfileView) -> bool {
    bytes_lt(encode_utf8(a.name), encode_utf8(b.name))
}

/// Inserts `x` into `s` after the last element that does not sort after it:
/// one step of a stable insertion sort.
pub open spec fn insert_by_name(s: Seq<ProfileView>, x: ProfileView) -> Seq<ProfileView>
    decreases s.len(),
{
    if s.len() == 0 {
        seq![x]
    } else if name_lt(x, s.last()) {
        insert_by_name(s.drop_last(), x).push(s.last())
    } else {
        s.push(x)
    }
}

/// The stable sort of a profile list by name: profiles with equal names
/// keep their relative order.
pub open spec fn sort_by_name(s: Seq<ProfileView>) -> Seq<ProfileView>
    decreases s.len(),
{
    if s.len() == 0 {
        s
    } else {
        insert_by_name(sort_by_name(s.drop_last()), s.last())
    }
}

/// No profile of `s` sorts strictly before an earlier one.
pub open spec fn sorted_by_name(s: Seq<ProfileView>) -> bool {
    forall|i: int, j: int| 0 <= i < j < s.len() ==> !name_lt(#[trigger] s[j], #[trigger] s[i])
}

/// Calls `<str as PartialOrd>::lt`; `str` orders lexicographically by the
/// bytes of the UTF-8 encoding.
#[verifier::external_body]
pub(crate) fn str_less(a: &str, b: &str) -> (r: bool)
    ensures
        r == bytes_lt(encode_utf8(a@), encode_utf8(b@)),
{
    a < b
}

/// The view of each profile of a list.
pub open spec fn views(s: Seq<Profile>) -> Seq<ProfileView> {
    s.map_values(|p: Profile| p@)
}

/// Where `insert_by_name` puts `x`: before the run of elements that sort
/// after it at the end of `s`.
proof fn lemma_insert_at(s: Seq<ProfileView>, x: ProfileView, k: int)
    requires
        0 <= k <= s.len(),
        forall|j: int| k <= j < s.len() ==> name_lt(x, #[trigger] s[j]),
        k == 0 || !name_lt(x, s[k - 1]),
    ensures
        insert_by_name(s, x) == s.subrange(0, k).push(x) + s.subrange(k, s.len() as int),
    decreases s.len(),
{
    if s.len() == 0 {
        assert(s.subrange(0, k).push(x) + s.subrange(k, s.len() as int) =~= seq![x]);
    } else if name_lt(x, s.last()) {
        assert(k < s.len());
        let t = s.drop_last();
        lemma_insert_at(t, x, k);
        assert(insert_by_name(s, x) == insert_by_name(t, x).push(s.last()));
        assert(t.subrange(0, k).push(x) + t.subrange(k, t.len() as int) =~= (s.subrange(0, k).push(
            x,
        ) + s.subrange(k, s.len() as int)).drop_last());
        assert((s.subrange(0, k).push(x) + s.subrange(k, s.len() as int)).last() == s.last());
        assert(insert_by_name(s, x) =~= s.subrange(0, k).push(x) + s.subrange(k, s.len() as int));
    } else {
        assert(k == s.len());
        assert(s.subrange(0, k) =~= s);
        assert(s.subrange(0, k).push(x) + s.subrange(k, s.len() as int) =~= s.push(x));
    }
}

/// Inserts `p` into `v` as `insert_by_name` says.
fn insert_sorted(v: &mut Vec<Profile>, p: Profile)
    ensures
        views(final(v)@) == insert_by_name(views(old(v)@), p@),
{
    let ghost s = views(v@);
    let mut k: usize = v.len();
    while k > 0 && str_less(p.name.as_str(), v[k - 1].name.as_str())
        invariant
            0 <= k <= v@.len(),
            s == views(v@),
            forall|j: int| k <= j < s.len() ==> name_lt(p@, #[trigger] s[j]),
        decreases k,
    {
        k = k - 1;
    }
    proof {
        lemma_insert_at(s, p@, k as int);
    }
    v.insert(k, p);
    assert(views(v@) =~= s.subrange(0, k as int).push(p@) + s.subrange(k as int, s.len() as int));
}

/// The profiles of `v`, stably sorted by name.
pub fn sort_profiles(v: &Vec<Profile>) -> (r: Vec<Profile>)
    ensures
        views(r@) == sort_by_name(views(v@)),
{
    let mut out: Vec<Profile> = Vec::new();
    let mut i: usize = 0;
    while i < v.len()
        invariant
            i <= v@.len(),
            views(out@) == sort_by_name(views(v@).subrange(0, i as int)),
        decreases v@.len() - i,
    {
        let ghost before = views(v@).subrange(0, i as int);
        let p = v[i].clone();
        insert_sorted(&mut out, p);
        proof {
            let after = views(v@).subrange(0, i as int + 1);
            assert(after.drop_last() =~= before);
            assert(after.last() == v@[i as int]@);
        }
        i = i + 1;
    }
    assert(views(v@).subrange(0, v@.len() as int) =~= views(v@));
    out
}

// ---------------------------------------------------------------
// Built-in profiles
// ---------------------------------------------------------------

/// Display parameters given by the bit patterns of gamma, brightness,
/// contrast and saturation, and a colour temperature.
pub open spec fn params_of(g: u32, b: u32, c: u32, s: u32, k: u32) -> DisplayParams {
    DisplayParams { gamma_bits: g, brightness_bits: b, contrast_bits: c, saturation_bits: s, temperature_k: k }
}

/// A built-in profile with the given texts and parameters.
pub open spec fn builtin_view(id: &str, name: &str, desc: &str, params: DisplayParams) -> ProfileView {
    ProfileView { id: id@, name: name@, description: desc@, params, hotkey: None, builtin: true }
}

/// The built-in profiles, in this order: default (no adjustment), Rust,
/// CS2, PUBG, office and night. Gamma, brightness, contrast and saturation
/// are written as the bit patterns of 100.0, 110.0 and so on.
pub open spec fn builtin_views() -> Seq<ProfileView> {
    seq![
        builtin_view(builtin::DEFAULT, "默认", "无任何调整的原始显示参数",
            params_of(0x42c8_0000, 0x42c8_0000, 0x42c8_0000, 0x42c8_0000, 6500)),
        builtin_view(builtin::RUST, "Rust", "提升可见度，利于远距离观察",
            params_of(0x42dc_0000, 0x42b4_0000, 0x42d2_0000, 0x42f0_0000, 6000)),
        builtin_view(builtin::CS2, "CS2", "增强对比，暗处细节更清晰",
            params_of(0x42d2_0000, 0x42be_0000, 0x42dc_0000, 0x42e6_0000, 6200)),
        builtin_view(builtin::PUBG, "PUBG", "鲜艳画面，快速发现敌人",
            params_of(0x42e6_0000, 0x42aa_0000, 0x42e6_0000, 0x4302_0000, 5800)),
        builtin_view(builtin::OFFICE, "办公", "柔和护眼的日常参数",
            params_of(0x42c8_0000, 0x42aa_0000, 0x42c8_0000, 0x42be_0000, 6500)),
        builtin_view(builtin::NIGHT, "夜间", "低亮度暖色调，夜间使用",
            params_of(0x42b4_0000, 0x425c_0000, 0x42be_0000, 0x42b4_0000, 4000)),
    ]
}

/// A built-in profile.
fn make_builtin(id: &str, name: &str, desc: &str, params: DisplayParams) -> (r: Profile)
    ensures
        r@ == builtin_view(id, name, desc, params),
{
    Profile {
        id: String::from_str(id),
        name: String::from_str(name),
        description: String::from_str(desc),
        params,
        hotkey: None,
        builtin: true,
    }
}

/// Display parameters from their bit patterns and temperature.
fn params(g: u32, b: u32, c: u32, s: u32, k: u32) -> (r: DisplayParams)
    ensures
        r == params_of(g, b, c, s, k),
{
    DisplayParams { gamma_bits: g, brightness_bits: b, contrast_bits: c, saturation_bits: s, temperature_k: k }
}

/// The built-in sample profiles: default, Rust, CS2, PUBG, office, night.
pub fn builtin_profiles() -> (r: Vec<Profile>)
    ensures
        views(r@) == builtin_views(),
{
    let v = vec![
        make_builtin(builtin::DEFAULT, "默认", "无任何调整的原始显示参数",
            params(0x42c8_0000, 0x42c8_0000, 0x42c8_0000, 0x42c8_0000, 6500)),
        make_builtin(builtin::RUST, "Rust", "提升可见度，利于远距离观察",
            params(0x42dc_0000, 0x42b4_0000, 0x42d2_0000, 0x42f0_0000, 6000)),
        make_builtin(builtin::CS2, "CS2", "增强对比，暗处细节更清晰",
            params(0x42d2_0000, 0x42be_0000, 0x42dc_0000, 0x42e6_0000, 6200)),
        make_builtin(builtin::PUBG, "PUBG", "鲜艳画面，快速发现敌人",
            params(0x42e6_0000, 0x42aa_0000, 0x42e6_0000, 0x4302_0000, 5800)),
        make_builtin(builtin::OFFICE, "办公", "柔和护眼的日常参数",
            params(0x42c8_0000, 0x42aa_0000, 0x42c8_0000, 0x42be_0000, 6500)),
        make_builtin(builtin::NIGHT, "夜间", "低亮度暖色调，夜间使用",
            params(0x42b4_0000, 0x425c_0000, 0x42be_0000, 0x42b4_0000, 4000)),
    ];
    assert(views(v@) =~= builtin_views());
    v
}

// ---------------------------------------------------------------
// Ids
// ---------------------------------------------------------------

/// Some profile of `s` has the id.
pub open spec fn has_id(s: Seq<ProfileView>, id: Seq<char>) -> bool {
    exists|i: int| 0 <= i < s.len() && #[trigger] s[i].id == id
}

/// `i` is the first position of `s` that holds the id.
pub open spec fn first_with_id(s: Seq<ProfileView>, id: Seq<char>, i: int) -> bool {
    &&& 0 <= i < s.len()
    &&& s[i].id == id
    &&& forall|j: int| 0 <= j < i ==> #[trigger] s[j].id != id
}

/// No two profiles of `s` share an id.
pub open spec fn ids_distinct(s: Seq<ProfileView>) -> bool {
    forall|i: int, j: int| 0 <= i < j < s.len() ==> #[trigger] s[i].id != #[trigger] s[j].id
}

/// `s` with each profile of `bs` appended, in order, unless a profile with
/// its id is already there.
pub open spec fn add_missing(s: Seq<ProfileView>, bs: Seq<ProfileView>) -> Seq<ProfileView>
    decreases bs.len(),
{
    if bs.len() == 0 {
        s
    } else {
        let t = add_missing(s, bs.drop_last());
        if has_id(t, bs.last().id) {
            t
        } else {
            t.push(bs.last())
        }
    }
}

/// `s` without the profiles that have the id, the others in order.
pub open spec fn without_id(s: Seq<ProfileView>, id: Seq<char>) -> Seq<ProfileView>
    decreases s.len(),
{
    if s.len() == 0 {
        s
    } else if s.last().id == id {
        without_id(s.drop_last(), id)
    } else {
        without_id(s.drop_last(), id).push(s.last())
    }
}

/// The profile with its built-in flag set.
pub open spec fn as_builtin(p: ProfileView) -> ProfileView {
    ProfileView { builtin: true, ..p }
}

/// The profile under another id.
pub open spec fn with_id(p: ProfileView, id: Seq<char>) -> ProfileView {
    ProfileView { id, ..p }
}

/// A character that cannot appear in a profile id, which is also a file
/// name.
pub open spec fn forbidden_id_char(c: char) -> bool {
    c == '/' || c == '\\' || c == ':' || c == '*' || c == '?' || c == '"' || c == '<' || c == '>'
        || c == '|'
}

/// A usable profile id: not empty, and free of the forbidden characters.
pub open spec fn valid_profile_id(id: Seq<char>) -> bool {
    id.len() > 0 && forall|i: int| 0 <= i < id.len() ==> !forbidden_id_char(#[trigger] id[i])
}

/// Exactly the ids that can name a file are usable: an id is accepted if
/// and only if it is not empty and none of its characters is one of
/// `/ \ : * ? " < > |`; any other character, `_` and `-` among them, is
/// allowed.
pub proof fn law_usable_ids(id: Seq<char>)
    ensures
        valid_profile_id(id) <==> id.len() > 0 && forall|i: int|
            0 <= i < id.len() ==> {
                let c = #[trigger] id[i];
                c != '/' && c != '\\' && c != ':' && c != '*' && c != '?' && c != '"' && c != '<' && c != '>'
                    && c != '|'
            },
{
}

/// The id `base-n`.
pub open spec fn renamed(base: Seq<char>, n: nat) -> Seq<char> {
    base + seq!['-'] + decimal(n)
}

/// `id` is the id under which a profile with id `base` is imported into
/// `s`: `base` itself when it is free, else `base-n` for the smallest
/// `n >= 2` that is free.
pub open spec fn import_id(s: Seq<ProfileView>, base: Seq<char>, id: Seq<char>) -> bool {
    if !has_id(s, base) {
        id == base
    } else {
        exists|n: nat|
            #![trigger renamed(base, n)]
            n >= 2 && id == renamed(base, n) && !has_id(s, id) && forall|m: nat|
                2 <= m < n ==> has_id(s, #[trigger] renamed(base, m))
    }
}

/// Whether `id` is a usable profile id.
pub fn validate_profile_id(id: &str) -> (r: bool)
    ensures
        r == valid_profile_id(id@),
{
    let cs = chars_of(id);
    if cs.len() == 0 {
        return false;
    }
    let mut i: usize = 0;
    while i < cs.len()
        invariant
            i <= cs@.len(),
            cs@ == id@,
            forall|j: int| 0 <= j < i ==> !forbidden_id_char(#[trigger] cs@[j]),
        decreases cs@.len() - i,
    {
        let c = cs[i];
        if c == '/' || c == '\\' || c == ':' || c == '*' || c == '?' || c == '"' || c == '<' || c
            == '>' || c == '|' {
            return false;
        }
        i = i + 1;
    }
    true
}

/// The first position of `v` holding the id, if any.
fn position_of(v: &Vec<Profile>, id: &str) -> (r: Option<usize>)
    ensures
        match r {
            None => !has_id(views(v@), id@),
            Some(k) => first_with_id(views(v@), id@, k as int),
        },
{
    let mut i: usize = 0;
    while i < v.len()
        invariant
            i <= v@.len(),
            forall|j: int| 0 <= j < i ==> #[trigger] views(v@)[j].id != id@,
        decreases v@.len() - i,
    {
        if str_eq(v[i].id.as_str(), id) {
            return Some(i);
        }
        i = i + 1;
    }
    proof {
        if has_id(views(v@), id@) {
            let j = choose|j: int| 0 <= j < views(v@).len() && #[trigger] views(v@)[j].id == id@;
            assert(views(v@)[j].id != id@);
        }
    }
    None
}

/// The text `base-n`.
fn renamed_id(base: &str, n: u128) -> (r: String)
    ensures
        r@ == renamed(base@, n as nat),
{
    let mut s = String::from_str(base);
    push_char(&mut s, '-');
    push_decimal(&mut s, n);
    proof {
        lemma_renamed_text(base@, n as nat, s@);
    }
    s
}

/// `base` followed by `-` and a decimal rendering is `renamed`.
proof fn lemma_renamed_text(base: Seq<char>, n: nat, s: Seq<char>)
    requires
        s == base.push('-') + decimal(n),
    ensures
        s == renamed(base, n),
{
    assert(base.push('-') =~= base + seq!['-']);
}


/// Different numbers give different renamed ids.
proof fn lemma_renamed_injective(base: Seq<char>, a: nat, b: nat)
    requires
        renamed(base, a) == renamed(base, b),
    ensures
        a == b,
{
    let ra = renamed(base, a);
    let rb = renamed(base, b);
    let k = base.len() + 1;
    assert(ra.subrange(k as int, ra.len() as int) =~= decimal(a));
    assert(rb.subrange(k as int, rb.len() as int) =~= decimal(b));
    lemma_digits_value_decimal(a);
    lemma_digits_value_decimal(b);
}

/// If `base-2` .. `base-n` are all taken in `s`, then `s` holds at least
/// `n - 1` profiles.
proof fn lemma_taken_bound(s: Seq<ProfileView>, base: Seq<char>, n: nat)
    requires
        n >= 2,
        forall|m: nat| 2 <= m <= n ==> has_id(s, #[trigger] renamed(base, m)),
    ensures
        n - 1 <= s.len(),
{
    let ids = s.map_values(|p: ProfileView| p.id);
    let f = |m: int| renamed(base, m as nat);
    let range = vstd::set_lib::set_int_range(2, n as int + 1);
    let cands = range.map(f);
    vstd::set_lib::lemma_int_range(2, n as int + 1);
    assert forall|x: int, y: int| range.contains(x) && range.contains(y) && #[trigger] f(x) == #[trigger] f(
        y,
    ) implies x == y by {
        lemma_renamed_injective(base, x as nat, y as nat);
    }
    vstd::set_lib::lemma_map_size(range, cands, f);
    assert forall|x: Seq<char>| cands.contains(x) implies ids.to_set().contains(x) by {
        let m = choose|m: int| range.contains(m) && f(m) == x;
        assert(has_id(s, renamed(base, m as nat)));
        let i = choose|i: int| 0 <= i < s.len() && #[trigger] s[i].id == renamed(base, m as nat);
        assert(ids[i] == x);
    }
    ids.lemma_cardinality_of_set();
    vstd::seq_lib::seq_to_set_is_finite(ids);
    vstd::set_lib::lemma_len_subset(cands, ids.to_set());
}

// ---------------------------------------------------------------
// The manager
// ---------------------------------------------------------------

/// Where profiles are kept between runs (the profile files of the
/// configuration directory). Nothing is assumed of what its methods return.
pub trait ProfileStore {
    /// All profiles the store holds.
    fn list_profiles(&self) -> Vec<Profile>;

    /// Writes (or overwrites) one profile.
    fn save_profile(&self, profile: &Profile) -> Result<(), String>;

    /// Removes the profile with the given id, if the store has it.
    fn delete_profile(&self, id: &str) -> Result<(), String>;

    /// Reads a profile from its JSON text.
    fn parse_profile_json(&self, json: &str) -> Result<Profile, String>;

    /// Writes a profile as JSON text.
    fn export_profile_json(&self, profile: &Profile) -> Result<String, String>;
}

/// Why a profile operation was refused.
#[derive(Debug, Clone, PartialEq, Eq)]
pub enum ProfileError {
    /// A profile with this id exists already.
    IdExists(String),
    /// A built-in profile cannot be created again.
    BuiltinCreate,
    /// No profile has this id.
    NotFound(String),
    /// A built-in profile cannot be deleted.
    BuiltinDelete,
    /// The id is empty or holds a character that a file name cannot hold.
    InvalidId(String),
    /// The JSON text is not a profile.
    InvalidJson(String),
    /// The store failed.
    Store(String),
}

/// The store's error text that a result carries, if any.
pub open spec fn store_reply<T>(r: Result<T, ProfileError>) -> Option<Seq<char>> {
    match r {
        Err(ProfileError::Store(e)) => Some(e@),
        _ => None,
    }
}

/// The error text of a store call's result (`None`: it succeeded).
pub open spec fn err_text<T>(r: Result<T, String>) -> Option<Seq<char>> {
    match r {
        Err(e) => Some(e@),
        Ok(_) => None,
    }
}

/// The profile as a user's profile (not built in).
pub open spec fn as_user(p: ProfileView) -> ProfileView {
    ProfileView { builtin: false, ..p }
}

/// The profile list, kept sorted by name, and the store that persists it.
pub struct ProfileManager<S: ProfileStore> {
    store: StoreCalls<S>,
    profiles: Vec<Profile>,
}

impl<S: ProfileStore> View for ProfileManager<S> {
    type V = Seq<ProfileView>;

    closed spec fn view(&self) -> Seq<ProfileView> {
        views(self.profiles@)
    }
}

impl<S: ProfileStore> ProfileManager<S> {
    /// The calls made on the store so far, in order.
    pub closed spec fn store_calls(&self) -> Seq<StoreOp> {
        self.store.calls()
    }

    /// The manager over `store`, holding the profiles `stored` that the
    /// store listed, and then each built-in profile whose id none of them
    /// has; the whole list stably sorted by name.
    pub fn from_stored(store: S, stored: Vec<Profile>) -> (r: Self)
        ensures
            r@ == sort_by_name(add_missing(views(stored@), builtin_views())),
            r.store_calls() == Seq::<StoreOp>::empty(),
    {
        Self::from_parts(StoreCalls::new(store), stored)
    }

    /// The manager over the store (and its calls so far) and the profiles
    /// listed.
    fn from_parts(store: StoreCalls<S>, stored: Vec<Profile>) -> (r: Self)
        ensures
            r@ == sort_by_name(add_missing(views(stored@), builtin_views())),
            r.store_calls() == store.calls(),
    {
        let ghost st = views(stored@);
        let mut profiles = stored;
        let builtins = builtin_profiles();
        let mut i: usize = 0;
        while i < builtins.len()
            invariant
                i <= builtins@.len(),
                views(builtins@) == builtin_views(),
                views(profiles@) == add_missing(st, views(builtins@).subrange(0, i as int)),
            decreases builtins@.len() - i,
        {
            let ghost before = views(builtins@).subrange(0, i as int);
            let b = builtins[i].clone();
            let pos = position_of(&profiles, b.id.as_str());
            proof {
                let after = views(builtins@).subrange(0, i as int + 1);
                assert(after.drop_last() =~= before);
                assert(after.last() == b@);
            }
            if pos.is_none() {
                profiles.push(b);
                assert(views(profiles@) =~= add_missing(st, before).push(b@));
            }
            i = i + 1;
        }
        assert(views(builtins@).subrange(0, builtins@.len() as int) =~= builtin_views());
        let sorted = sort_profiles(&profiles);
        ProfileManager { store, profiles: sorted }
    }

    /// Loads the profiles of the store, adds the built-in profiles that
    /// it lacks, and sorts the list by name. It always succeeds.
    pub fn init(store: S) -> (r: Result<Self, ProfileError>)
        ensures
            match r {
                Ok(m) => exists|stored: Seq<ProfileView>|
                    m.store_calls() == seq![StoreOp::List(stored)] && m@ == sort_by_name(
                        add_missing(stored, builtin_views()),
                    ),
                Err(_) => false,
            },
    {
        let mut calls = StoreCalls::new(store);
        let stored = calls.list_profiles();
        assert(calls.calls() =~= seq![StoreOp::List(views(stored@))]);
        Ok(Self::from_parts(calls, stored))
    }

    /// All profiles, in list order.
    pub fn list(&self) -> (r: &[Profile])
        ensures
            views(r@) == self@,
    {
        self.profiles.as_slice()
    }

    /// The first profile with the given id.
    pub fn get(&self, id: &str) -> (r: Option<&Profile>)
        ensures
            match r {
                None => !has_id(self@, id@),
                Some(p) => exists|i: int| first_with_id(self@, id@, i) && p@ == self@[i],
            },
    {
        let pos = position_of(&self.profiles, id);
        match pos {
            Some(k) => {
                assert(first_with_id(self@, id@, k as int) && self.profiles@[k as int]@
                    == self@[k as int]);
                Some(&self.profiles[k])
            },
            None => None,
        }
    }

    /// Whether a profile has the given id.
    pub fn id_exists(&self, id: &str) -> (r: bool)
        ensures
            r == has_id(self@, id@),
    {
        position_of(&self.profiles, id).is_some()
    }

    /// Adds a new profile: refused when its id is not usable as a file
    /// name, when the id is taken, or when it is marked built in; otherwise
    /// it is handed to the store and, when the store saved it, added to the
    /// list, which is sorted by name again.
    pub fn create(&mut self, profile: Profile) -> (r: Result<(), ProfileError>)
        ensures
            !valid_profile_id(profile.id@) ==> (r matches Err(ProfileError::InvalidId(e)) && e@
                == profile.id@),
            valid_profile_id(profile.id@) && has_id(old(self)@, profile.id@) ==> (r matches Err(
                ProfileError::IdExists(e),
            ) && e@ == profile.id@),
            valid_profile_id(profile.id@) && !has_id(old(self)@, profile.id@) && profile.builtin ==> r
                == Err::<(), ProfileError>(ProfileError::BuiltinCreate),
            valid_profile_id(profile.id@) && !has_id(old(self)@, profile.id@) && !profile.builtin ==> (
            r is Ok || r matches Err(ProfileError::Store(_))) && final(self).store_calls() == old(self).store_calls().push(StoreOp::Save(profile@, store_reply(r))),
            !(valid_profile_id(profile.id@) && !has_id(old(self)@, profile.id@) && !profile.builtin)
                ==> final(self).store_calls() == old(self).store_calls(),
            r is Ok ==> final(self)@ == sort_by_name(old(self)@.push(profile@)),
            r is Err ==> final(self)@ == old(self)@,
    {
        if !validate_profile_id(profile.id.as_str()) {
            return Err(ProfileError::InvalidId(profile.id.clone()));
        }
        if position_of(&self.profiles, profile.id.as_str()).is_some() {
            return Err(ProfileError::IdExists(profile.id.clone()));
        }
        if profile.builtin {
            return Err(ProfileError::BuiltinCreate);
        }
        let saved = self.store.save_profile(&profile);
        if let Err(e) = saved {
            return Err(ProfileError::Store(e));
        }
        let ghost old_view = self@;
        self.profiles.push(profile);
        assert(views(self.profiles@) =~= old_view.push(profile@));
        self.profiles = sort_profiles(&self.profiles);
        Ok(())
    }

    /// Updates a profile, or adds it when no profile has its id; refused
    /// when the id is not usable as a file name. When the first profile
    /// with the id is built in, the new profile keeps the built-in flag.
    /// The profile is handed to the store first; when the store saved it,
    /// it takes the place of the first profile with its id (or is
    /// appended), and the list is sorted by name again.
    pub fn update(&mut self, profile: Profile) -> (r: Result<(), ProfileError>)
        ensures
            !valid_profile_id(profile.id@) ==> (r matches Err(ProfileError::InvalidId(e)) && e@
                == profile.id@) && final(self).store_calls() == old(self).store_calls(),
            valid_profile_id(profile.id@) ==> (r is Ok || r matches Err(ProfileError::Store(_))),
            r is Err ==> final(self)@ == old(self)@,
            forall|k: int|
                first_with_id(old(self)@, profile.id@, k) && (#[trigger] old(self)@[k]).builtin
                    && valid_profile_id(profile.id@) ==> final(self).store_calls() == old(self).store_calls().push(
                    StoreOp::Save(as_builtin(profile@), store_reply(r)),
                ) && (r is Ok ==> final(self)@ == sort_by_name(
                    old(self)@.update(k, as_builtin(profile@)),
                )),
            forall|k: int|
                first_with_id(old(self)@, profile.id@, k) && !(#[trigger] old(self)@[k]).builtin
                    && valid_profile_id(profile.id@) ==> final(self).store_calls() == old(self).store_calls().push(StoreOp::Save(profile@, store_reply(r))) && (r is Ok
                    ==> final(self)@ == sort_by_name(old(self)@.update(k, profile@))),
            !has_id(old(self)@, profile.id@) && valid_profile_id(profile.id@) ==> final(self).store_calls() == old(self).store_calls().push(StoreOp::Save(profile@, store_reply(r)))
                && (r is Ok ==> final(self)@ == sort_by_name(old(self)@.push(profile@))),
    {
        if !validate_profile_id(profile.id.as_str()) {
            return Err(ProfileError::InvalidId(profile.id.clone()));
        }
        let ghost old_view = self@;
        let pos = position_of(&self.profiles, profile.id.as_str());
        let mut p = profile;
        if let Some(k) = pos {
            if self.profiles[k].builtin {
                p.builtin = true;
            }
        }
        let saved = self.store.save_profile(&p);
        if let Err(e) = saved {
            return Err(ProfileError::Store(e));
        }
        let ghost pv = p@;
        match pos {
            Some(k) => {
                self.profiles.set(k, p);
                assert(views(self.profiles@) =~= old_view.update(k as int, pv));
            },
            None => {
                self.profiles.push(p);
                assert(views(self.profiles@) =~= old_view.push(pv));
            },
        }
        self.profiles = sort_profiles(&self.profiles);
        Ok(())
    }

    /// Deletes a profile and every other profile with its id: refused when
    /// no profile has the id or the first one is built in; otherwise the
    /// id is handed to the store first, and the list changes only when the
    /// store deleted it.
    pub fn delete(&mut self, id: &str) -> (r: Result<(), ProfileError>)
        ensures
            r is Err ==> final(self)@ == old(self)@,
            !has_id(old(self)@, id@) ==> (r matches Err(ProfileError::NotFound(e)) && e@ == id@)
                && final(self).store_calls() == old(self).store_calls(),
            forall|k: int|
                first_with_id(old(self)@, id@, k) && (#[trigger] old(self)@[k]).builtin ==> r
                    == Err::<(), ProfileError>(ProfileError::BuiltinDelete) && final(self).store_calls()
                    == old(self).store_calls(),
            forall|k: int|
                first_with_id(old(self)@, id@, k) && !(#[trigger] old(self)@[k]).builtin ==> (r is Ok
                    || r matches Err(ProfileError::Store(_))) && final(self).store_calls() == old(self).store_calls().push(
                    StoreOp::Delete(id@, store_reply(r)),
                ),
            r is Ok ==> final(self)@ == without_id(old(self)@, id@),
    {
        let pos = position_of(&self.profiles, id);
        match pos {
            None => {
                return Err(ProfileError::NotFound(String::from_str(id)));
            },
            Some(k) => {
                if self.profiles[k].builtin {
                    return Err(ProfileError::BuiltinDelete);
                }
            },
        }
        let deleted = self.store.delete_profile(id);
        if let Err(e) = deleted {
            return Err(ProfileError::Store(e));
        }
        let ghost s = views(self.profiles@);
        let mut kept: Vec<Profile> = Vec::new();
        let mut i: usize = 0;
        while i < self.profiles.len()
            invariant
                i <= self.profiles@.len(),
                s == views(self.profiles@),
                views(kept@) == without_id(s.subrange(0, i as int), id@),
            decreases self.profiles@.len() - i,
        {
            let ghost before = s.subrange(0, i as int);
            proof {
                let after = s.subrange(0, i as int + 1);
                assert(after.drop_last() =~= before);
                assert(after.last() == s[i as int]);
            }
            if !str_eq(self.profiles[i].id.as_str(), id) {
                let p = self.profiles[i].clone();
                kept.push(p);
                assert(views(kept@) =~= without_id(before, id@).push(s[i as int]));
            }
            i = i + 1;
        }
        assert(s.subrange(0, s.len() as int) =~= s);
        self.profiles = kept;
        Ok(())
    }

    /// Adds a profile read from outside, as a user's profile (not built
    /// in): its id must be usable; when the id is taken, the profile gets
    /// the id `id-n` for the smallest free `n >= 2`. It is handed to the
    /// store, and when the store saved it, added to the list, which is
    /// sorted by name again. Returns the profile as added.
    pub fn import_profile(&mut self, profile: Profile) -> (r: Result<Profile, ProfileError>)
        ensures
            !valid_profile_id(profile.id@) ==> (r matches Err(ProfileError::InvalidId(e)) && e@
                == profile.id@) && final(self).store_calls() == old(self).store_calls(),
            valid_profile_id(profile.id@) ==> (r is Ok || r matches Err(ProfileError::Store(_)))
                && exists|id: Seq<char>|
                import_id(old(self)@, profile.id@, id) && final(self).store_calls() == old(self).store_calls().push(
                    StoreOp::Save(with_id(as_user(profile@), id), store_reply(r)),
                ),
            r is Err ==> final(self)@ == old(self)@,
            match r {
                Ok(p) => import_id(old(self)@, profile.id@, p.id@) && p@ == with_id(
                    as_user(profile@),
                    p.id@,
                ) && final(self)@ == sort_by_name(old(self)@.push(p@)),
                Err(_) => true,
            },
    {
        if !validate_profile_id(profile.id.as_str()) {
            return Err(ProfileError::InvalidId(profile.id.clone()));
        }
        let ghost old_view = self@;
        let mut p = profile;
        p.builtin = false;
        if position_of(&self.profiles, p.id.as_str()).is_some() {
            let base = p.id.clone();
            let count: usize = self.profiles.len();
            assert(old_view.len() == count);
            let mut n: u128 = 2;
            let mut cand = renamed_id(base.as_str(), n);
            while position_of(&self.profiles, cand.as_str()).is_some()
                invariant
                    2 <= n <= self@.len() + 2,
                    self@ == old_view,
                    old_view.len() == count,
                    cand@ == renamed(base@, n as nat),
                    forall|m: nat| 2 <= m < n ==> has_id(self@, #[trigger] renamed(base@, m)),
                decreases self@.len() + 2 - n,
            {
                proof {
                    assert forall|m: nat| 2 <= m <= n implies has_id(
                        self@,
                        #[trigger] renamed(base@, m),
                    ) by {
                        if m == n {
                            assert(has_id(views(self.profiles@), cand@));
                        }
                    }
                    lemma_taken_bound(self@, base@, n as nat);
                }
                n = n + 1;
                cand = renamed_id(base.as_str(), n);
            }
            proof {
                assert(!has_id(old_view, renamed(base@, n as nat)));
                assert(import_id(old_view, base@, cand@));
            }
            p.id = cand;
        }
        assert(import_id(old_view, profile.id@, p.id@));
        assert(p@ == with_id(as_user(profile@), p.id@));
        let saved = self.store.save_profile(&p);
        if let Err(e) = saved {
            return Err(ProfileError::Store(e));
        }
        let out = p.clone();
        let ghost pv = p@;
        self.profiles.push(p);
        assert(views(self.profiles@) =~= old_view.push(pv));
        self.profiles = sort_profiles(&self.profiles);
        Ok(out)
    }

    /// Imports a profile from JSON text: the store reads the text, and the
    /// profile is then added as `import_profile` does.
    pub fn import_json(&mut self, json: &str) -> (r: Result<Profile, ProfileError>)
        ensures
            r is Err ==> final(self)@ == old(self)@,
            match r {
                Ok(p) => exists|q: ProfileView|
                    import_id(old(self)@, q.id, p.id@) && p@ == with_id(as_user(q), p.id@) && final(self)@
                        == sort_by_name(old(self)@.push(p@)) && final(self).store_calls() == old(self).store_calls().push(
                        StoreOp::Parse(json@, Ok(q)),
                    ).push(StoreOp::Save(p@, None)),
                Err(ProfileError::InvalidJson(e)) => final(self).store_calls() == old(self).store_calls().push(
                    StoreOp::Parse(json@, Err(e@)),
                ),
                Err(ProfileError::InvalidId(e)) => exists|q: ProfileView|
                    q.id == e@ && !valid_profile_id(e@) && final(self).store_calls() == old(self).store_calls().push(
                        StoreOp::Parse(json@, Ok(q)),
                    ),
                Err(ProfileError::Store(e)) => exists|q: ProfileView, id: Seq<char>|
                    valid_profile_id(q.id) && import_id(old(self)@, q.id, id) && final(self).store_calls()
                        == old(self).store_calls().push(StoreOp::Parse(json@, Ok(q))).push(
                        StoreOp::Save(with_id(as_user(q), id), Some(e@)),
                    ),
                Err(_) => false,
            },
    {
        let parsed = self.store.parse_profile_json(json);
        match parsed {
            Err(e) => Err(ProfileError::InvalidJson(e)),
            Ok(profile) => {
                let ghost q = profile@;
                let r = self.import_profile(profile);
                proof {
                    if r is Ok {
                        assert(import_id(old(self)@, q.id, r->Ok_0@.id));
                    }
                }
                r
            },
        }
    }

    /// The JSON text of the first profile with the given id, as the store
    /// writes it: the store is handed that profile, and its answer is
    /// returned (its error as a store error).
    pub fn export_json(&mut self, id: &str) -> (r: Result<String, ProfileError>)
        ensures
            final(self)@ == old(self)@,
            !has_id(old(self)@, id@) ==> (r matches Err(ProfileError::NotFound(e)) && e@ == id@)
                && final(self).store_calls() == old(self).store_calls(),
            forall|k: int|
                first_with_id(old(self)@, id@, k) ==> match r {
                    Ok(json) => final(self).store_calls() == old(self).store_calls().push(
                        StoreOp::Export(#[trigger] old(self)@[k], Ok(json@)),
                    ),
                    Err(ProfileError::Store(e)) => final(self).store_calls() == old(self).store_calls().push(
                        StoreOp::Export(old(self)@[k], Err(e@)),
                    ),
                    Err(_) => false,
                },
    {
        match position_of(&self.profiles, id) {
            None => Err(ProfileError::NotFound(String::from_str(id))),
            Some(k) => {
                match self.store.export_profile_json(&self.profiles[k]) {
                    Ok(json) => Ok(json),
                    Err(e) => Err(ProfileError::Store(e)),
                }
            },
        }
    }
}

} // verus!
