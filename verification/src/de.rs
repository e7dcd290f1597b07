//! The state of a deserializer: its input and the limit on how deeply
//! sequences, maps and enum variants may nest; and how an enum value is
//! read, decided from the kind of its first item.

use vstd::prelude::*;

verus! {

/// The nesting depth a fresh deserializer accepts, plus one.
pub const DEPTH_LIMIT: u8 = 128;

/// A deserializer reading from `R`.
pub struct Deserializer<R> {
    reader: R,
    scratch: Vec<u8>,
    remaining_depth: u8,
    disable_depth_limit: bool,
}

/// The remaining depth after entering a level.
pub open spec fn entered_depth(remaining: u8, disabled: bool) -> int {
    if disabled {
        remaining as int
    } else {
        remaining - 1
    }
}

/// The remaining depth after leaving a level.
pub open spec fn left_depth(remaining: u8, disabled: bool) -> int {
    if disabled {
        remaining as int
    } else {
        remaining + 1
    }
}

/// Whether entering a level with `remaining` depth left is refused.
pub open spec fn enter_refused(remaining: u8, disabled: bool) -> bool {
    !disabled && remaining == 1
}

/// Input nests more deeply than the deserializer accepts.
#[derive(Clone, Copy, Debug, PartialEq, Eq, Structural)]
pub struct DepthLimitExceeded;

impl<R> Deserializer<R> {
    /// The input.
    pub closed spec fn reader_spec(&self) -> R {
        self.reader
    }

    /// The buffer for input that cannot be borrowed.
    pub closed spec fn scratch_spec(&self) -> Seq<u8> {
        self.scratch@
    }

    /// How many more levels of nesting may be entered, plus one.
    pub closed spec fn remaining_depth_spec(&self) -> u8 {
        self.remaining_depth
    }

    /// Whether the nesting depth is unbounded.
    pub closed spec fn depth_limit_disabled(&self) -> bool {
        self.disable_depth_limit
    }

    /// Creates a deserializer reading from `reader`, with an empty scratch
    /// buffer and the depth limit in force.
    pub fn from_reader(reader: R) -> (r: Self)
        ensures
            r.reader_spec() == reader,
            r.scratch_spec() == Seq::<u8>::empty(),
            r.remaining_depth_spec() == DEPTH_LIMIT,
            !r.depth_limit_disabled(),
    {
        Deserializer {
            reader,
            scratch: Vec::new(),
            remaining_depth: DEPTH_LIMIT,
            disable_depth_limit: false,
        }
    }

    /// Parse arbitrarily deep structures without any consideration for
    /// overflowing the stack.
    pub fn disable_depth_limit(&mut self)
        ensures
            final(self).depth_limit_disabled(),
            final(self).reader_spec() == old(self).reader_spec(),
            final(self).scratch_spec() == old(self).scratch_spec(),
            final(self).remaining_depth_spec() == old(self).remaining_depth_spec(),
    {
        self.disable_depth_limit = true;
    }

    /// Enters one level of nesting: with the limit in force, one level fewer
    /// remains, and the limit is exceeded when none remains.
    pub fn enter_nested(&mut self) -> (r: Result<(), DepthLimitExceeded>)
        requires
            old(self).depth_limit_disabled() || old(self).remaining_depth_spec() > 0,
        ensures
            final(self).reader_spec() == old(self).reader_spec(),
            final(self).scratch_spec() == old(self).scratch_spec(),
            final(self).depth_limit_disabled() == old(self).depth_limit_disabled(),
            final(self).remaining_depth_spec() == entered_depth(
                old(self).remaining_depth_spec(),
                old(self).depth_limit_disabled(),
            ),
            r is Err <==> enter_refused(
                old(self).remaining_depth_spec(),
                old(self).depth_limit_disabled(),
            ),
    {
        if !self.disable_depth_limit {
            self.remaining_depth = self.remaining_depth - 1;
            if self.remaining_depth == 0 {
                return Err(DepthLimitExceeded);
            }
        }
        Ok(())
    }

    /// Leaves one level of nesting: with the limit in force, one more level
    /// remains.
    pub fn leave_nested(&mut self)
        requires
            old(self).depth_limit_disabled() || old(self).remaining_depth_spec() < u8::MAX,
        ensures
            final(self).reader_spec() == old(self).reader_spec(),
            final(self).scratch_spec() == old(self).scratch_spec(),
            final(self).depth_limit_disabled() == old(self).depth_limit_disabled(),
            final(self).remaining_depth_spec() == left_depth(
                old(self).remaining_depth_spec(),
                old(self).depth_limit_disabled(),
            ),
    {
        if !self.disable_depth_limit {
            self.remaining_depth = self.remaining_depth + 1;
        }
    }
}

/// Leaving a level right after entering it restores the remaining depth.
pub proof fn lemma_enter_then_leave(remaining: u8, disabled: bool)
    requires
        disabled || remaining > 0,
    ensures
        0 <= entered_depth(remaining, disabled) <= u8::MAX,
        disabled || entered_depth(remaining, disabled) < u8::MAX,
        left_depth(entered_depth(remaining, disabled) as u8, disabled) == remaining,
{
}

/// From a fresh deserializer with the limit in force, entering `k` levels
/// without leaving any leaves `DEPTH_LIMIT - k` remaining, and the next level
/// is refused exactly when `k` levels are already entered and
/// `k + 1 == DEPTH_LIMIT`: at most 127 levels nest.
pub proof fn lemma_nesting_limit(k: nat)
    requires
        k < DEPTH_LIMIT,
    ensures
        enter_refused((DEPTH_LIMIT - k) as u8, false) <==> k + 1 == DEPTH_LIMIT,
        k + 1 < DEPTH_LIMIT ==> entered_depth((DEPTH_LIMIT - k) as u8, false) == DEPTH_LIMIT - (k
            + 1),
{
}

/// The kind of the next encoded item, as its marker announces it.
#[derive(Clone, Copy, Debug, PartialEq, Eq, Structural)]
pub enum ItemKind {
    Int,
    String,
    Sequence,
    Mapping,
    Float,
    Bytes,
    Bool,
    Unit,
    Null,
}

/// How an enum value starts, given the kind of its first item.
#[derive(Clone, Copy, Debug, PartialEq, Eq, Structural)]
pub enum EnumStart {
    /// An integer: the variant at this index of the variant names.
    Index(usize),
    /// A string: the variant of that name.
    Name,
    /// A map of one entry: its key names the variant and its value holds
    /// the variant's content, one level of nesting deeper.
    SingleEntryMap,
    /// A map of any other length, which is refused.
    NotSingleEntry,
    /// An item of another kind, which is refused: an enum is an integer,
    /// a string or a map.
    Unexpected(ItemKind),
}

/// Decides how an enum value is read, from the kind of its first item: for
/// an integer, `index` is the integer read, and it must name one of the
/// `n_variants` variants; for a map, `map_len` is the length its header
/// gives. The arguments that the kind does not call for are not looked at.
pub fn plan_enum(kind: ItemKind, index: u32, map_len: usize, n_variants: usize) -> (r: EnumStart)
    requires
        kind == ItemKind::Int ==> index < n_variants,
    ensures
        kind == ItemKind::Int ==> r == EnumStart::Index(index as usize),
        kind == ItemKind::String ==> r == EnumStart::Name,
        kind == ItemKind::Mapping && map_len == 1 ==> r == EnumStart::SingleEntryMap,
        kind == ItemKind::Mapping && map_len != 1 ==> r == EnumStart::NotSingleEntry,
        kind != ItemKind::Int && kind != ItemKind::String && kind != ItemKind::Mapping ==> r
            == EnumStart::Unexpected(kind),
{
    match kind {
        ItemKind::Int => EnumStart::Index(index as usize),
        ItemKind::String => EnumStart::Name,
        ItemKind::Mapping => {
            if map_len == 1 {
                EnumStart::SingleEntryMap
            } else {
                EnumStart::NotSingleEntry
            }
        },
        other => EnumStart::Unexpected(other),
    }
}

/// How the key of a single-entry enum map names its variant.
#[derive(Clone, Copy, Debug, PartialEq, Eq, Structural)]
pub enum VariantKey {
    /// An integer: the index of the variant.
    Index,
    /// A string: the name of the variant.
    Name,
}

/// Decides how the key of a single-entry enum map is read, from its kind:
/// an integer or a string, and any other kind is refused and returned.
pub fn plan_variant_key(kind: ItemKind) -> (r: Result<VariantKey, ItemKind>)
    ensures
        kind == ItemKind::Int ==> r == Ok::<VariantKey, ItemKind>(VariantKey::Index),
        kind == ItemKind::String ==> r == Ok::<VariantKey, ItemKind>(VariantKey::Name),
        kind != ItemKind::Int && kind != ItemKind::String ==> r == Err::<VariantKey, ItemKind>(
            kind,
        ),
{
    match kind {
        ItemKind::Int => Ok(VariantKey::Index),
        ItemKind::String => Ok(VariantKey::Name),
        other => Err(other),
    }
}

} // verus!
