//! Run planning: the fatal pre-checks made once the profile card is in
//! hand, before any badge is fetched.

use vstd::prelude::*;
use crate::encode::{OutputFormat, format_of_path};
use crate::models::AvatarProfileCard;

verus! {

/// The fatal, run-aborting conditions.  A profile without badges ends
/// the run early as a non-crashing "nothing to render" outcome; an
/// output path with an unsupported extension fails fast before any
/// network work.
#[derive(Debug, Clone, Copy, PartialEq, Eq, Structural)]
pub enum RunError {
    NoBadges,
    UnsupportedExtension,
}

/// The default output name derived from the display name:
/// `canvas-<name>.png`.
pub open spec fn default_output_name(avname: Seq<char>) -> Seq<char> {
    seq!['c', 'a', 'n', 'v', 'a', 's', '-'] + avname + seq!['.', 'p', 'n', 'g']
}

/// Builds the default output name for a display name.
pub fn make_default_output_name(avname: &str) -> (r: String)
    ensures
        r@ == default_output_name(avname@),
{
    let mut out: Vec<char> = Vec::new();
    out.push('c');
    out.push('a');
    out.push('n');
    out.push('v');
    out.push('a');
    out.push('s');
    out.push('-');
    let name_chars = crate::text::chars_vec(avname);
    let mut i: usize = 0;
    while i < name_chars.len()
        invariant
            i <= name_chars@.len(),
            name_chars@ == avname@,
            out@ == seq!['c', 'a', 'n', 'v', 'a', 's', '-'] + avname@.subrange(0, i as int),
        decreases name_chars@.len() - i,
    {
        out.push(name_chars[i]);
        i = i + 1;
        proof {
            assert(out@ =~= seq!['c', 'a', 'n', 'v', 'a', 's', '-'] + avname@.subrange(
                0,
                i as int,
            ));
        }
    }
    out.push('.');
    out.push('p');
    out.push('n');
    out.push('g');
    proof {
        assert(avname@.subrange(0, avname@.len() as int) =~= avname@);
        assert(out@ =~= default_output_name(avname@));
    }
    crate::text::string_from_chars(&out)
}

/// Decides whether a run can proceed and where it writes: a profile
/// with no badges ends the run with the "no badges" outcome before any
/// output concern; otherwise the output name (given, or derived from
/// the display name) must carry a supported extension, which fixes the
/// output format.
pub fn plan_output(card: &AvatarProfileCard, output: &Option<String>) -> (r: Result<
    (String, OutputFormat),
    RunError,
>)
    ensures
        card.badges@.len() == 0 <==> r == Err::<(String, OutputFormat), RunError>(
            RunError::NoBadges,
        ),
        card.badges@.len() > 0 && output is None ==> (r matches Ok(p) && p.0@
            == default_output_name(card.avname@) && p.1 == OutputFormat::Png),
        card.badges@.len() > 0 ==> ({
            let name = match output {
                Some(n) => n@,
                None => default_output_name(card.avname@),
            };
            match format_of_path(name) {
                Some(f) => r matches Ok(p) && p.0@ == name && p.1 == f,
                None => r == Err::<(String, OutputFormat), RunError>(
                    RunError::UnsupportedExtension,
                ),
            }
        }),
{
    if card.badges.len() == 0 {
        return Err(RunError::NoBadges);
    }
    let name: String = match output {
        Some(n) => n.clone(),
        None => make_default_output_name(card.avname.as_str()),
    };
    proof {
        if output is None {
            lemma_default_name_is_png(card.avname@);
        }
    }
    match crate::encode::choose_format(name.as_str()) {
        Some(f) => Ok((name, f)),
        None => Err(RunError::UnsupportedExtension),
    }
}

/// A derived name always names a PNG file: the default output name ends
/// with the PNG extension, whatever the display name.
pub proof fn lemma_default_name_is_png(avname: Seq<char>)
    ensures
        format_of_path(default_output_name(avname)) == Some(OutputFormat::Png),
{
    let name = default_output_name(avname);
    assert(name.subrange(name.len() - 4, name.len() as int) =~= crate::encode::png_ext());
}

} // verus!
