//! The list of fonts the user embedded recently, newest first, and where it
//! is stored.

use vstd::prelude::*;
use crate::text::{join_path, owned, path_join, str_eq};

verus! {

/// How many fonts the list remembers.
pub const MAX_RECENT_FONTS: usize = 10;

/// One remembered font.
#[derive(Debug, Clone, PartialEq, Eq)]
pub struct RecentFont {
    /// The font file's canonical path.
    pub path: String,
    /// The family name read from the font.
    pub family_name: String,
    /// The font file's extension.
    pub extension: String,
    /// The file's size in bytes when it was last read.
    pub size: u64,
}

impl View for RecentFont {
    type V = (Seq<char>, Seq<char>, Seq<char>, u64);

    open spec fn view(&self) -> (Seq<char>, Seq<char>, Seq<char>, u64) {
        (self.path@, self.family_name@, self.extension@, self.size)
    }
}

impl RecentFont {
    /// A copy of this entry.
    pub fn duplicate(&self) -> (r: RecentFont)
        ensures
            r@ == self@,
    {
        RecentFont {
            path: owned(self.path.as_str()),
            family_name: owned(self.family_name.as_str()),
            extension: owned(self.extension.as_str()),
            size: self.size,
        }
    }
}

/// The entries' views.
pub open spec fn font_views(v: Seq<RecentFont>) -> Seq<(Seq<char>, Seq<char>, Seq<char>, u64)> {
    v.map_values(|f: RecentFont| f@)
}

/// The file the list is kept in, beneath the configuration directory.
pub open spec fn store_file(config_dir: Seq<char>) -> Seq<char> {
    path_join(path_join(config_dir, "novel-downloader"@), "recent-fonts.json"@)
}

/// The file the list is kept in: `novel-downloader/recent-fonts.json`
/// beneath the configuration directory.
pub fn store_path(config_dir: &str) -> (p: String)
    ensures
        p@ == store_file(config_dir@),
{
    let dir = join_path(config_dir, "novel-downloader");
    join_path(dir.as_str(), "recent-fonts.json")
}

/// The configuration directory: `$XDG_CONFIG_HOME` when set and non-empty,
/// else `$HOME/.config` when `$HOME` is set and non-empty.
pub open spec fn config_dir_of(xdg: Option<Seq<char>>, home: Option<Seq<char>>) -> Option<Seq<char>> {
    match xdg {
        Some(x) if x.len() > 0 => Some(x),
        _ => match home {
            Some(h) if h.len() > 0 => Some(path_join(h, ".config"@)),
            _ => None,
        },
    }
}

/// Resolve the configuration directory from the two environment values,
/// passed in so the rule can be exercised without touching the process
/// environment.
pub fn resolve_config_dir(xdg_config_home: Option<&str>, home: Option<&str>) -> (r: Option<String>)
    ensures
        r.deep_view() == config_dir_of(
            match xdg_config_home { Some(x) => Some(x@), None => None },
            match home { Some(h) => Some(h@), None => None }),
{
    match xdg_config_home {
        Some(x) => {
            if !crate::text::is_empty_str(x) {
                return Some(owned(x));
            }
        },
        None => {},
    }
    match home {
        Some(h) => {
            if !crate::text::is_empty_str(h) {
                Some(join_path(h, ".config"))
            } else {
                None
            }
        },
        None => None,
    }
}

/// The list after `font` is recorded: the font first, every other entry
/// for another path after it in its old order, at most
/// [`MAX_RECENT_FONTS`] entries.
pub open spec fn remembered(fonts: Seq<RecentFont>, font: RecentFont) -> Seq<(Seq<char>, Seq<char>, Seq<char>, u64)> {
    let others = font_views(fonts).filter(|f: (Seq<char>, Seq<char>, Seq<char>, u64)| f.0 != font.path@);
    let all = seq![font@] + others;
    if all.len() > MAX_RECENT_FONTS { all.take(MAX_RECENT_FONTS as int) } else { all }
}

/// Record `font` at the head of the list: an older entry for the same path
/// is dropped, and the list is cut to [`MAX_RECENT_FONTS`].
pub fn remember_font(fonts: Vec<RecentFont>, font: RecentFont) -> (r: Vec<RecentFont>)
    ensures
        font_views(r@) == remembered(fonts@, font),
        r@.len() <= MAX_RECENT_FONTS,
        r@.len() >= 1 && r@[0]@ == font@,
        forall|i: int| 1 <= i < r@.len() ==> (#[trigger] r@[i]).path@ != font.path@,
{
    let ghost fv = font_views(fonts@);
    let ghost pred = |f: (Seq<char>, Seq<char>, Seq<char>, u64)| f.0 != font.path@;
    let mut r: Vec<RecentFont> = Vec::new();
    r.push(font.duplicate());
    let mut i: usize = 0;
    while i < fonts.len()
        invariant
            i <= fonts.len(),
            fv == font_views(fonts@),
            pred == (|f: (Seq<char>, Seq<char>, Seq<char>, u64)| f.0 != font.path@),
            font_views(r@) == seq![font@] + fv.take(i as int).filter(pred),
        decreases fonts.len() - i,
    {
        proof {
            assert(fv.take(i as int + 1).drop_last() =~= fv.take(i as int));
            fv.take(i as int + 1).filter_lemma(pred);
            reveal(Seq::filter);
        }
        if !str_eq(fonts[i].path.as_str(), font.path.as_str()) {
            let f = fonts[i].duplicate();
            proof {
                assert(font_views(r@.push(f)) =~= font_views(r@).push(f@));
                assert(fv.take(i as int + 1).filter(pred) =~= fv.take(i as int).filter(pred).push(fv[i as int]));
            }
            r.push(f);
        } else {
            proof {
                assert(fv.take(i as int + 1).filter(pred) =~= fv.take(i as int).filter(pred));
            }
        }
        i = i + 1;
    }
    proof {
        assert(fv.take(fonts.len() as int) =~= fv);
    }
    r.truncate(MAX_RECENT_FONTS);
    proof {
        let all = seq![font@] + fv.filter(pred);
        fv.filter_lemma(pred);
        assert(font_views(r@) =~= remembered(fonts@, font));
        assert(r@.len() == font_views(r@).len());
        assert(r@.len() >= 1);
        assert(font_views(r@)[0] == r@[0]@);
        assert forall|i: int| 1 <= i < r@.len() implies (#[trigger] r@[i]).path@ != font.path@ by {
            assert(font_views(r@)[i] == all[i]);
            assert(all[i] == fv.filter(pred)[i - 1]);
        }
    }
    r
}

/// What inspecting a remembered font's file found: nothing when the file
/// could not be inspected, else its current size and, when that differs from
/// the remembered one, the family name and extension read from it again
/// (nothing when it could not be read as a font).
#[derive(Debug, Clone, PartialEq, Eq)]
pub struct FontCheck {
    /// The file's size, when it could be inspected.
    pub size: Option<u64>,
    /// Family name and extension read again, for a file whose size changed.
    pub reread: Option<(String, String)>,
}

/// The plain-value form of a [`FontCheck`].
pub open spec fn check_view(c: FontCheck) -> (Option<u64>, Option<(Seq<char>, Seq<char>)>) {
    (c.size, match c.reread {
        Some((f, e)) => Some((f@, e@)),
        None => None,
    })
}

/// The remembered entries after loading, with whether any entry was
/// refreshed: an entry whose file could not be inspected is dropped; one
/// whose size changed takes the metadata read again when that succeeded,
/// keeping its place; the rest stay as they were.
pub open spec fn loaded(stored: Seq<RecentFont>, checks: Seq<(Option<u64>, Option<(Seq<char>, Seq<char>)>)>) -> (Seq<(Seq<char>, Seq<char>, Seq<char>, u64)>, bool)
    decreases stored.len(),
{
    if stored.len() == 0 || checks.len() == 0 {
        (Seq::empty(), false)
    } else {
        let (rest, refreshed) = loaded(stored.drop_last(), checks.drop_last());
        let f = stored.last();
        let c = if checks.len() == stored.len() { checks.last() } else { (None, None) };
        match c.0 {
            None => (rest, refreshed),
            Some(size) => match c.1 {
                Some((family, ext)) if f.size != size => (rest.push((f.path@, family, ext, size)), true),
                _ => (rest.push(f@), refreshed),
            },
        }
    }
}

/// The remembered fonts after loading, each checked against `checks` (one
/// per stored entry, in order), and whether the store must be written back:
/// when an entry was refreshed or dropped.
pub fn loaded_fonts(stored: Vec<RecentFont>, checks: Vec<FontCheck>) -> (r: (Vec<RecentFont>, bool))
    requires
        checks.len() == stored.len(),
    ensures
        font_views(r.0@) == loaded(stored@, checks@.map_values(|c: FontCheck| check_view(c))).0,
        r.1 == (loaded(stored@, checks@.map_values(|c: FontCheck| check_view(c))).1 || r.0@.len() != stored@.len()),
{
    let ghost cv = checks@.map_values(|c: FontCheck| check_view(c));
    let mut fonts: Vec<RecentFont> = Vec::new();
    let mut refreshed = false;
    let mut i: usize = 0;
    while i < stored.len()
        invariant
            i <= stored.len(),
            checks.len() == stored.len(),
            cv == checks@.map_values(|c: FontCheck| check_view(c)),
            (font_views(fonts@), refreshed) == loaded(stored@.take(i as int), cv.take(i as int)),
            fonts@.len() <= i,
        decreases stored.len() - i,
    {
        proof {
            assert(stored@.take(i + 1).drop_last() =~= stored@.take(i as int));
            assert(cv.take(i + 1).drop_last() =~= cv.take(i as int));
            assert(cv.take(i + 1).last() == check_view(checks@[i as int]));
        }
        let f = &stored[i];
        let c = &checks[i];
        match c.size {
            None => {},
            Some(size) => {
                let next = match &c.reread {
                    Some((family, ext)) => {
                        if f.size != size {
                            refreshed = true;
                            RecentFont { path: owned(f.path.as_str()), family_name: owned(family.as_str()), extension: owned(ext.as_str()), size }
                        } else {
                            f.duplicate()
                        }
                    },
                    None => f.duplicate(),
                };
                proof {
                    assert(font_views(fonts@.push(next)) =~= font_views(fonts@).push(next@));
                }
                fonts.push(next);
            },
        }
        i = i + 1;
    }
    proof {
        assert(stored@.take(stored.len() as int) =~= stored@);
        assert(cv.take(stored.len() as int) =~= cv);
    }
    let rewrite = refreshed || fonts.len() != stored.len();
    (fonts, rewrite)
}

} // verus!
