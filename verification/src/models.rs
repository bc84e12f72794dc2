//! Data model: badge metadata and the profile card that owns it.

use vstd::prelude::*;

verus! {

/// Metadata for a single badge, as handed over by the profile-card
/// collaborator.  Immutable once constructed.
#[derive(Debug, Clone)]
pub struct BadgeInfo {
    pub name: String,
    pub creator_id: i64,
    pub image_url: String,
    pub xloc: i64,
    pub yloc: i64,
    pub image_width: i64,
    pub image_height: i64,
    pub creator_badge_index: i64,
}

/// One absolute badge position extracted from the profile's layout
/// markup: the badge's identifier and its literal pixel coordinates.
#[derive(Debug, Clone)]
pub struct LayoutEntry {
    pub id: String,
    pub x: i64,
    pub y: i64,
}

/// The fetched profile record: display name, numeric account id, the
/// owned badges keyed by badge key, and the absolute positions parsed
/// from the optional layout markup (empty when no markup was present).
#[derive(Debug)]
pub struct AvatarProfileCard {
    pub avname: String,
    pub cid: i64,
    pub badges: Vec<(String, BadgeInfo)>,
    pub badge_positions: Vec<LayoutEntry>,
}

/// A successfully fetched and decoded badge, ready to composite: its
/// identifier, its decoded pixel buffer, and its resolved destination.
#[derive(Debug)]
pub struct DecodedBadge {
    pub id: String,
    pub image: crate::canvas::PixelBuf,
    pub x: i64,
    pub y: i64,
}

/// The character sequence `badge-<creator_id>-<creator_badge_index>`,
/// the stable identifier of a badge.
pub open spec fn badge_id_seq(creator_id: int, creator_badge_index: int) -> Seq<char> {
    seq!['b', 'a', 'd', 'g', 'e', '-'] + crate::text::int_dec_seq(creator_id) + seq!['-']
        + crate::text::int_dec_seq(creator_badge_index)
}

impl BadgeInfo {
    /// The stable identifier string `badge-<creator_id>-<creator_badge_index>`.
    pub fn to_id_string(&self) -> (r: String)
        ensures
            r@ == badge_id_seq(self.creator_id as int, self.creator_badge_index as int),
    {
        let mut out: Vec<char> = Vec::new();
        out.push('b');
        out.push('a');
        out.push('d');
        out.push('g');
        out.push('e');
        out.push('-');
        proof {
            assert(out@ =~= seq!['b', 'a', 'd', 'g', 'e', '-']);
        }
        crate::text::push_int_dec_chars(self.creator_id, &mut out);
        out.push('-');
        crate::text::push_int_dec_chars(self.creator_badge_index, &mut out);
        proof {
            assert(out@ =~= badge_id_seq(self.creator_id as int, self.creator_badge_index as int));
        }
        crate::text::string_from_chars(&out)
    }

    /// Formulaic destination of the badge on the canvas: `x` is taken
    /// verbatim, while the stored `yloc` (expressed in a taller virtual
    /// layout of stacked rows) is folded into the single canvas row.
    pub fn to_offset_location(&self) -> (r: (i64, i64))
        ensures
            r.0 == self.xloc,
            r.1 == self.yloc as int % (crate::CANVAS_HEIGHT as int),
            0 <= r.1 < crate::CANVAS_HEIGHT,
    {
        let t = self.yloc % 100;
        let y = if t < 0 { t + 100 } else { t };
        (self.xloc, y)
    }
}

} // verus!
