//! What the highlight report shows of each highlight and of the whole list.

use vstd::prelude::*;

use vstd::string::{StrSliceExecFns, StringExecFns};

use crate::highlight::{Highlight, HighlightKind};
use crate::text::{decimal, u16_decimal};

verus! {

pub open spec fn headshots() -> spec_fn(Highlight) -> bool {
    |h: Highlight| h.kind == HighlightKind::Headshot
}

pub open spec fn airshots() -> spec_fn(Highlight) -> bool {
    |h: Highlight| h.kind == HighlightKind::Airshot
}

pub open spec fn lethal_airshots() -> spec_fn(Highlight) -> bool {
    |h: Highlight| h.kind == HighlightKind::Airshot && h.lethal
}

/// The label of a highlight: `AIRSHOT*` for a lethal airshot, `AIRSHOT ` for a
/// non-lethal one, `HEADSHOT` for a headshot.
pub open spec fn label_of(kind: HighlightKind, lethal: bool) -> Seq<char> {
    match kind {
        HighlightKind::Airshot => if lethal {
            "AIRSHOT*"@
        } else {
            "AIRSHOT "@
        },
        HighlightKind::Headshot => "HEADSHOT"@,
    }
}

/// The label that the report shows for `h`.
pub fn highlight_label(h: &Highlight) -> (label: &'static str)
    ensures
        label@ == label_of(h.kind, h.lethal),
{
    match h.kind {
        HighlightKind::Airshot => if h.lethal {
            "AIRSHOT*"
        } else {
            "AIRSHOT "
        },
        HighlightKind::Headshot => "HEADSHOT",
    }
}

/// The plural ending for a count: none for exactly one, `s` otherwise.
pub fn plural_suffix(n: usize) -> (suffix: &'static str)
    ensures
        suffix@ == (if n == 1 {
            ""@
        } else {
            "s"@
        }),
{
    if n == 1 {
        ""
    } else {
        "s"
    }
}

/// The counts of the summary line: headshots, airshots, lethal airshots.
pub fn summary_counts(hs: &Vec<Highlight>) -> (counts: (usize, usize, usize))
    ensures
        counts.0 == hs@.filter(headshots()).len(),
        counts.1 == hs@.filter(airshots()).len(),
        counts.2 == hs@.filter(lethal_airshots()).len(),
        counts.0 + counts.1 == hs@.len(),
        counts.2 <= counts.1,
{
    proof {
        crate::laws::lemma_summary_counts_add_up(hs@);
    }
    let mut n_headshots: usize = 0;
    let mut n_airshots: usize = 0;
    let mut n_lethal: usize = 0;
    let mut i: usize = 0;
    proof {
        reveal(Seq::filter);
        assert(hs@.take(0) =~= Seq::<Highlight>::empty());
    }
    while i < hs.len()
        invariant
            i <= hs.len(),
            n_headshots == hs@.take(i as int).filter(headshots()).len(),
            n_airshots == hs@.take(i as int).filter(airshots()).len(),
            n_lethal == hs@.take(i as int).filter(lethal_airshots()).len(),
            n_headshots <= i && n_airshots <= i && n_lethal <= i,
        decreases hs.len() - i,
    {
        let h = &hs[i];
        proof {
            let pre = hs@.take(i as int);
            assert(hs@.take(i + 1) =~= pre.push(*h));
            pre.lemma_filter_push(*h, headshots());
            pre.lemma_filter_push(*h, airshots());
            pre.lemma_filter_push(*h, lethal_airshots());
        }
        match h.kind {
            HighlightKind::Headshot => {
                n_headshots = n_headshots + 1;
            },
            HighlightKind::Airshot => {
                n_airshots = n_airshots + 1;
                if h.lethal {
                    n_lethal = n_lethal + 1;
                }
            },
        }
        i = i + 1;
    }
    proof {
        assert(hs@.take(hs.len() as int) =~= hs@);
    }
    (n_headshots, n_airshots, n_lethal)
}

/// The width in characters of the widest killer or victim name of `hs`.
pub open spec fn widest_name(hs: Seq<Highlight>) -> nat
    decreases hs.len(),
{
    if hs.len() == 0 {
        0
    } else {
        let h = hs.last();
        let here = if h.killer@.len() >= h.victim@.len() {
            h.killer@.len()
        } else {
            h.victim@.len()
        };
        let rest = widest_name(hs.drop_last());
        if rest >= here {
            rest
        } else {
            here
        }
    }
}

/// The width of the name columns: the widest name, or 10 for no highlights.
pub open spec fn name_column_width(hs: Seq<Highlight>) -> nat {
    if hs.len() == 0 {
        10
    } else {
        widest_name(hs)
    }
}

/// The width of the name columns of the report.
pub fn name_width(hs: &Vec<Highlight>) -> (width: usize)
    ensures
        width == name_column_width(hs@),
        forall|i: int|
            0 <= i < hs@.len() ==> width >= (#[trigger] hs@[i]).killer@.len() && width
                >= hs@[i].victim@.len(),
        hs@.len() > 0 ==> exists|i: int|
            0 <= i < hs@.len() && (width == (#[trigger] hs@[i]).killer@.len() || width
                == hs@[i].victim@.len()),
        hs@.len() == 0 ==> width == 10,
{
    proof {
        crate::laws::lemma_name_width_is_widest_name(hs@);
    }
    if hs.len() == 0 {
        return 10;
    }
    let mut widest: usize = 0;
    let mut i: usize = 0;
    proof {
        assert(hs@.take(0) =~= Seq::<Highlight>::empty());
    }
    while i < hs.len()
        invariant
            i <= hs.len(),
            widest as nat == widest_name(hs@.take(i as int)),
        decreases hs.len() - i,
    {
        let h = &hs[i];
        let killer = h.killer.as_str().unicode_len();
        let victim = h.victim.as_str().unicode_len();
        let here = if killer >= victim {
            killer
        } else {
            victim
        };
        if here > widest {
            widest = here;
        }
        proof {
            let post = hs@.take(i + 1);
            assert(post.drop_last() =~= hs@.take(i as int));
            assert(post.last() == *h);
        }
        i = i + 1;
    }
    proof {
        assert(hs@.take(hs.len() as int) =~= hs@);
    }
    widest
}

/// The last column of a report line: the damage of a non-lethal airshot, as
/// `(N dmg)`, or the weapon of any other highlight, as `(weapon: W)`.
pub open spec fn trailing_of(h: Highlight) -> Seq<char> {
    if h.kind == HighlightKind::Airshot && !h.lethal {
        let damage: u16 = match h.damage {
            Some(d) => d,
            None => 0,
        };
        "("@ + decimal(damage as nat) + " dmg)"@
    } else {
        "(weapon: "@ + h.weapon@ + ")"@
    }
}

/// The last column of the report line of `h`.
pub fn trailing_column(h: &Highlight) -> (column: String)
    ensures
        column@ == trailing_of(*h),
{
    let non_lethal_airshot = !h.lethal && match h.kind {
        HighlightKind::Airshot => true,
        HighlightKind::Headshot => false,
    };
    if non_lethal_airshot {
        let damage: u16 = match h.damage {
            Some(d) => d,
            None => 0,
        };
        let digits = u16_decimal(damage);
        let mut column = "(".to_owned();
        column.append(digits.as_str());
        column.append(" dmg)");
        column
    } else {
        let mut column = "(weapon: ".to_owned();
        column.append(h.weapon.as_str());
        column.append(")");
        column
    }
}

} // verus!
