//! The line-cache facade: freshness-checked, bounded caching of file lines
//! and contents, keyed by path.
//!
//! The facade owns three bounded stores (line sequences, verbatim contents,
//! fingerprints) and takes every decision the cache protocol calls for.
//! The filesystem itself stays with the caller: a caller probes a file's
//! metadata and hands in a [`StatOutcome`]; when a method answers
//! [`Fetched::NeedsRead`], the caller reads the file and comes back through
//! the matching `*_after_read` method with a [`ReadOutcome`] or a
//! [`ContentOutcome`].  A file that is absent on disk is served as
//! currently empty, never as an error; I/O failures other than not-found
//! never reach the facade -- the caller keeps them.
//!
//! Because the underlying stores may evict entries of their own accord,
//! each store's abstract map (see [`crate::bounded`]) is an upper bound on
//! what a lookup can still return: a hit is always a value recorded for
//! that very path and never one outlived by an invalidation, while a miss
//! may happen at any time and only asks the caller to read.

use std::sync::Arc;
use vstd::prelude::*;

use crate::bounded::content_model;
use crate::bounded::content_store_budget;
use crate::bounded::content_store_clear;
use crate::bounded::content_store_get;
use crate::bounded::content_store_insert;
use crate::bounded::content_store_new;
use crate::bounded::content_store_remove;
use crate::bounded::content_store_settled_weight;
use crate::bounded::lines_model;
use crate::bounded::lines_store_budget;
use crate::bounded::lines_store_clear;
use crate::bounded::lines_store_get;
use crate::bounded::lines_store_insert;
use crate::bounded::lines_store_new;
use crate::bounded::lines_store_remove;
use crate::bounded::lines_store_settled_weight;
use crate::bounded::meta_model;
use crate::bounded::meta_store_clear;
use crate::bounded::meta_store_get;
use crate::bounded::meta_store_insert;
use crate::bounded::meta_store_new;
use crate::bounded::meta_store_remove;
use crate::bounded::no_content;
use crate::bounded::no_lines;
use crate::bounded::no_meta;
use crate::fingerprint::is_stale;
use crate::fingerprint::Fingerprint;
use crate::pick::char_text;
use crate::pick::pick_char;
use crate::pick::pick_line;
use crate::split::split_content;
use crate::split::split_spec;

verus! {

/// Outcome of probing a file's metadata on disk.  Any probe failure other
/// than not-found stays with the caller and never reaches the facade.
#[derive(Clone, Copy, Debug, PartialEq, Eq)]
pub enum StatOutcome {
    /// The file exists and bears this fingerprint.
    Present(Fingerprint),
    /// The file does not exist.
    Absent,
}

/// Outcome of reading a file for its lines: the decoded content together
/// with the fingerprint observed at read time.
#[derive(Debug, PartialEq, Eq)]
pub enum ReadOutcome {
    /// The file was read whole; its fingerprint was taken at the same time.
    Present(String, Fingerprint),
    /// The file vanished before it could be read.
    Absent,
}

/// Outcome of reading a file for its verbatim content: the text together
/// with the fingerprint observed at read time.
#[derive(Debug, PartialEq, Eq)]
pub enum ContentOutcome {
    /// The file was read whole; its fingerprint was taken at the same time.
    Present(String, Fingerprint),
    /// The file vanished before it could be read.
    Absent,
}

/// The answer of a cache step: a finished value, or the request to read
/// the file and come back through the matching `*_after_read` method.
#[derive(Debug, PartialEq, Eq)]
pub enum Fetched<T> {
    /// The request was answered from the cache.
    Done(T),
    /// The cache holds nothing servable; read the file and come back.
    NeedsRead,
}

/// Where serving the 1-based line `lineno` out of the lines `ls` lands:
/// absent for 0, for numbers past the line count, and for an empty file.
pub open spec fn line_of(ls: Seq<Seq<char>>, lineno: int) -> Option<Seq<char>> {
    if 1 <= lineno <= ls.len() {
        Option::Some(ls[lineno - 1])
    } else {
        Option::None
    }
}

/// How a whole-sequence answer reflects the cached lines: an empty file is
/// reported as absent, not as an empty collection.
pub open spec fn lines_opt_of(ls: Seq<Seq<char>>, o: Option<Seq<Seq<char>>>) -> bool {
    match o {
        Option::Some(v) => v == ls && ls.len() > 0,
        Option::None => ls.len() == 0,
    }
}

/// How a random-line answer reflects the cached lines: some line of the
/// sequence, absent exactly when there are no lines.
pub open spec fn random_line_of(ls: Seq<Seq<char>>, o: Option<Seq<char>>) -> bool {
    match o {
        Option::Some(l) => ls.contains(l),
        Option::None => ls.len() == 0,
    }
}

/// How a random-character answer reflects the cached lines: a character of
/// some line; absent only when there are no lines at all or some line is
/// empty (the draw does not say which line it fell on).
pub open spec fn random_char_of(ls: Seq<Seq<char>>, o: Option<char>) -> bool {
    match o {
        Option::Some(ch) => exists|i: int| 0 <= i < ls.len() && (#[trigger] ls[i]).contains(ch),
        Option::None => ls.len() == 0 || exists|i: int|
            0 <= i < ls.len() && (#[trigger] ls[i]).len() == 0,
    }
}

/// The cache facade: three bounded stores keyed by file path.
pub struct LineCache {
    lines: moka::sync::Cache<String, Arc<Vec<String>>>,
    contents: moka::sync::Cache<String, String>,
    metadata: moka::sync::Cache<String, (u64, u32, u64)>,
}

/// Both states hold the same entries in every store.
pub open spec fn same_entries(pre: LineCache, post: LineCache) -> bool {
    &&& post.lines_map() == pre.lines_map()
    &&& post.contents_map() == pre.contents_map()
    &&& post.meta_map() == pre.meta_map()
}

/// The byte budgets of the two weighted stores carry over unchanged: only
/// construction sets them.
pub open spec fn budgets_kept(pre: LineCache, post: LineCache) -> bool {
    &&& post.lines_budget() == pre.lines_budget()
    &&& post.contents_budget() == pre.contents_budget()
}

/// `post` is `pre` with every entry for path `p` discarded, in all three
/// stores, and nothing else touched.
pub open spec fn entries_dropped(pre: LineCache, post: LineCache, p: Seq<char>) -> bool {
    &&& post.lines_map() == pre.lines_map().remove(p)
    &&& post.contents_map() == pre.contents_map().remove(p)
    &&& post.meta_map() == pre.meta_map().remove(p)
}

/// What the freshness step may do for path `p` under the given stat
/// outcome: leave every entry in place, but only when the file exists and
/// its on-disk fingerprint equals the cached one; otherwise -- absent file,
/// absent or evicted cached fingerprint, or any difference between the two
/// fingerprints -- discard the path's entries everywhere.
pub open spec fn refresh_rel(
    pre: LineCache,
    post: LineCache,
    p: Seq<char>,
    stat: StatOutcome,
) -> bool {
    ||| entries_dropped(pre, post, p)
    ||| (same_entries(pre, post) && (stat matches StatOutcome::Present(fp)
        && pre.meta_map().contains_pair(p, fp.spec_triple())))
}

impl LineCache {
    /// The line sequences the cache may still hold, by path.
    pub closed spec fn lines_map(&self) -> Map<Seq<char>, Seq<Seq<char>>> {
        lines_model(&self.lines)
    }

    /// The verbatim contents the cache may still hold, by path.
    pub closed spec fn contents_map(&self) -> Map<Seq<char>, Seq<char>> {
        content_model(&self.contents)
    }

    /// The fingerprint triples the cache may still hold, by path.
    pub closed spec fn meta_map(&self) -> Map<Seq<char>, (u64, u32, u64)> {
        meta_model(&self.metadata)
    }

    /// The byte budget the line store was built with.
    pub closed spec fn lines_budget(&self) -> u64 {
        lines_store_budget(&self.lines)
    }

    /// The byte budget the content store was built with.
    pub closed spec fn contents_budget(&self) -> u64 {
        content_store_budget(&self.contents)
    }

    /// A cache with the given byte budgets for the line and content stores
    /// and the given entry capacity for the fingerprint store.  It starts
    /// empty.
    pub fn new(lines_budget: u64, contents_budget: u64, fingerprint_capacity: u64) -> (r:
        LineCache)
        ensures
            r.lines_map() == no_lines(),
            r.contents_map() == no_content(),
            r.meta_map() == no_meta(),
            r.lines_budget() == lines_budget,
            r.contents_budget() == contents_budget,
    {
        LineCache {
            lines: lines_store_new(lines_budget),
            contents: content_store_new(contents_budget),
            metadata: meta_store_new(fingerprint_capacity),
        }
    }

    /// Drop every cached entry for `path`, in all three stores,
    /// unconditionally.
    pub fn invalidate(&mut self, path: &str)
        ensures
            entries_dropped(*old(self), *final(self), path@),
            budgets_kept(*old(self), *final(self)),
    {
        lines_store_remove(&mut self.lines, path);
        content_store_remove(&mut self.contents, path);
        meta_store_remove(&mut self.metadata, path);
    }

    /// Drop every entry from all three stores.
    pub fn clear(&mut self)
        ensures
            final(self).lines_map() == no_lines(),
            final(self).contents_map() == no_content(),
            final(self).meta_map() == no_meta(),
            budgets_kept(*old(self), *final(self)),
    {
        lines_store_clear(&mut self.lines);
        content_store_clear(&mut self.contents);
        meta_store_clear(&mut self.metadata);
    }

    /// Legacy name for [`Self::clear`], kept so older callers migrate
    /// without edits.
    pub fn clear_cache(&mut self)
        ensures
            final(self).lines_map() == no_lines(),
            final(self).contents_map() == no_content(),
            final(self).meta_map() == no_meta(),
            budgets_kept(*old(self), *final(self)),
    {
        self.clear();
    }

    /// The freshness step run before every read: discard the path's entries
    /// everywhere unless the file exists and its fingerprint equals the
    /// cached one.  A load that follows will record the fresh fingerprint.
    fn refresh(&mut self, path: &str, stat: &StatOutcome)
        ensures
            refresh_rel(*old(self), *final(self), path@, *stat),
            budgets_kept(*old(self), *final(self)),
    {
        match stat {
            StatOutcome::Absent => {
                self.invalidate(path);
            },
            StatOutcome::Present(fp) => {
                let cached = meta_store_get(&self.metadata, path);
                if is_stale(&cached, fp) {
                    self.invalidate(path);
                }
            },
        }
    }

    /// Record the outcome of reading `path` and return its shared line
    /// sequence: content is split and stored together with the fingerprint
    /// observed at read time; an absent file drops the path's entries
    /// everywhere and yields the empty sequence -- a file that vanished is
    /// served as currently empty, not as a fault.  The verbatim-content
    /// store is never touched here; it is populated separately.
    pub fn load_lines(&mut self, path: &str, read: ReadOutcome) -> (r: Arc<Vec<String>>)
        ensures
            budgets_kept(*old(self), *final(self)),
            (match read {
                ReadOutcome::Present(c, fp) => {
                    &&& final(self).lines_map() == old(self).lines_map().insert(
                        path@,
                        split_spec(c@),
                    )
                    &&& final(self).meta_map() == old(self).meta_map().insert(
                        path@,
                        fp.spec_triple(),
                    )
                    &&& final(self).contents_map() == old(self).contents_map()
                    &&& r.deep_view() == split_spec(c@)
                },
                ReadOutcome::Absent => {
                    &&& entries_dropped(*old(self), *final(self), path@)
                    &&& r.deep_view().len() == 0
                },
            }),
    {
        match read {
            ReadOutcome::Present(content, fp) => {
                let lines = split_content(content.as_str());
                let shared = Arc::new(lines);
                lines_store_insert(&mut self.lines, path, &shared);
                meta_store_insert(&mut self.metadata, path, fp.triple());
                shared
            },
            ReadOutcome::Absent => {
                self.invalidate(path);
                let empty: Vec<String> = Vec::new();
                proof {
                    assert(empty.deep_view() =~= Seq::<Seq<char>>::empty());
                }
                Arc::new(empty)
            },
        }
    }

    /// Serve the 1-based line `lineno` of `path` from cache: run the
    /// freshness step for the given stat outcome, then answer from the
    /// cached lines, or ask the caller to read the file and come back
    /// through [`Self::get_line_after_read`].  Line numbers of 0 or beyond
    /// the line count are absent, never an error.
    pub fn get_line(&mut self, path: &str, lineno: usize, stat: &StatOutcome) -> (r: Fetched<
        Option<String>,
    >)
        ensures
            refresh_rel(*old(self), *final(self), path@, *stat),
            budgets_kept(*old(self), *final(self)),
            (match r {
                Fetched::Done(opt) => exists|ls: Seq<Seq<char>>|
                    (#[trigger] final(self).lines_map().contains_pair(path@, ls))
                        && opt.deep_view() == line_of(ls, lineno as int),
                Fetched::NeedsRead => true,
            }),
            !final(self).lines_map().dom().contains(path@) ==> r is NeedsRead,
    {
        self.refresh(path, stat);
        match lines_store_get(&self.lines, path) {
            Option::Some(shared) => {
                let answer = line_at(&shared, lineno);
                proof {
                    assert(self.lines_map().contains_pair(path@, shared.deep_view())
                        && answer.deep_view() == line_of(shared.deep_view(), lineno as int));
                }
                Fetched::Done(answer)
            },
            Option::None => Fetched::NeedsRead,
        }
    }

    /// Complete a line request after the caller has read the file: record
    /// the read outcome as [`Self::load_lines`] does, then serve the line
    /// from the fresh sequence.
    pub fn get_line_after_read(&mut self, path: &str, lineno: usize, read: ReadOutcome) -> (r:
        Option<String>)
        ensures
            budgets_kept(*old(self), *final(self)),
            (match read {
                ReadOutcome::Present(c, fp) => {
                    &&& final(self).lines_map() == old(self).lines_map().insert(
                        path@,
                        split_spec(c@),
                    )
                    &&& final(self).meta_map() == old(self).meta_map().insert(
                        path@,
                        fp.spec_triple(),
                    )
                    &&& final(self).contents_map() == old(self).contents_map()
                    &&& r.deep_view() == line_of(split_spec(c@), lineno as int)
                },
                ReadOutcome::Absent => {
                    &&& entries_dropped(*old(self), *final(self), path@)
                    &&& r is None
                },
            }),
    {
        let shared = self.load_lines(path, read);
        line_at(&shared, lineno)
    }

    /// Serve the full line sequence of `path` from cache, as an owned copy;
    /// an empty file is reported as absent, matching the legacy behaviour.
    /// Answers [`Fetched::NeedsRead`] when the caller must read first and
    /// come back through [`Self::get_lines_after_read`].
    pub fn get_lines(&mut self, path: &str, stat: &StatOutcome) -> (r: Fetched<
        Option<Vec<String>>,
    >)
        ensures
            refresh_rel(*old(self), *final(self), path@, *stat),
            budgets_kept(*old(self), *final(self)),
            (match r {
                Fetched::Done(opt) => exists|ls: Seq<Seq<char>>|
                    (#[trigger] final(self).lines_map().contains_pair(path@, ls)) && lines_opt_of(
                        ls,
                        opt.deep_view(),
                    ),
                Fetched::NeedsRead => true,
            }),
            !final(self).lines_map().dom().contains(path@) ==> r is NeedsRead,
    {
        self.refresh(path, stat);
        match lines_store_get(&self.lines, path) {
            Option::Some(shared) => {
                if shared.len() == 0 {
                    proof {
                        assert(self.lines_map().contains_pair(path@, shared.deep_view())
                            && lines_opt_of(
                            shared.deep_view(),
                            Option::<Vec<String>>::None.deep_view(),
                        ));
                    }
                    Fetched::Done(Option::None)
                } else {
                    let copy = clone_lines(&shared);
                    proof {
                        assert(self.lines_map().contains_pair(path@, shared.deep_view())
                            && lines_opt_of(shared.deep_view(), Option::Some(copy).deep_view()));
                    }
                    Fetched::Done(Option::Some(copy))
                }
            },
            Option::None => Fetched::NeedsRead,
        }
    }

    /// Complete a whole-sequence request after the caller has read the
    /// file: record the read outcome, then serve the owned copy; an empty
    /// file is absent.
    pub fn get_lines_after_read(&mut self, path: &str, read: ReadOutcome) -> (r: Option<
        Vec<String>,
    >)
        ensures
            budgets_kept(*old(self), *final(self)),
            (match read {
                ReadOutcome::Present(c, fp) => {
                    &&& final(self).lines_map() == old(self).lines_map().insert(
                        path@,
                        split_spec(c@),
                    )
                    &&& final(self).meta_map() == old(self).meta_map().insert(
                        path@,
                        fp.spec_triple(),
                    )
                    &&& final(self).contents_map() == old(self).contents_map()
                    &&& lines_opt_of(split_spec(c@), r.deep_view())
                },
                ReadOutcome::Absent => {
                    &&& entries_dropped(*old(self), *final(self), path@)
                    &&& r is None
                },
            }),
    {
        let shared = self.load_lines(path, read);
        if shared.len() == 0 {
            Option::None
        } else {
            Option::Some(clone_lines(&shared))
        }
    }

    /// Serve the verbatim content of `path` from cache.  Answers
    /// [`Fetched::NeedsRead`] when the caller must read first and come back
    /// through [`Self::get_content_after_read`].
    pub fn get_content(&mut self, path: &str, stat: &StatOutcome) -> (r: Fetched<Option<String>>)
        ensures
            refresh_rel(*old(self), *final(self), path@, *stat),
            budgets_kept(*old(self), *final(self)),
            (match r {
                Fetched::Done(opt) => opt matches Option::Some(c)
                    && final(self).contents_map().contains_pair(path@, c@),
                Fetched::NeedsRead => true,
            }),
            !final(self).contents_map().dom().contains(path@) ==> r is NeedsRead,
    {
        self.refresh(path, stat);
        match content_store_get(&self.contents, path) {
            Option::Some(content) => Fetched::Done(Option::Some(content)),
            Option::None => Fetched::NeedsRead,
        }
    }

    /// Complete a content request after the caller has read the file:
    /// store the verbatim content together with the fingerprint observed
    /// at read time and serve the content; an absent file drops the path's
    /// entries everywhere and is served as absent.  The line store is not
    /// touched by a content read-through; it is populated separately.
    pub fn get_content_after_read(&mut self, path: &str, read: ContentOutcome) -> (r: Option<
        String,
    >)
        ensures
            budgets_kept(*old(self), *final(self)),
            (match read {
                ContentOutcome::Present(c, fp) => {
                    &&& final(self).contents_map() == old(self).contents_map().insert(path@, c@)
                    &&& final(self).meta_map() == old(self).meta_map().insert(
                        path@,
                        fp.spec_triple(),
                    )
                    &&& final(self).lines_map() == old(self).lines_map()
                    &&& (r matches Option::Some(v) && v@ == c@)
                },
                ContentOutcome::Absent => {
                    &&& entries_dropped(*old(self), *final(self), path@)
                    &&& r is None
                },
            }),
    {
        match read {
            ContentOutcome::Present(content, fp) => {
                content_store_insert(&mut self.contents, path, &content);
                meta_store_insert(&mut self.metadata, path, fp.triple());
                Option::Some(content)
            },
            ContentOutcome::Absent => {
                self.invalidate(path);
                Option::None
            },
        }
    }

    /// Serve a uniformly chosen line of `path` from cache, drawn on the
    /// shared sequence without copying it; absent exactly when the file has
    /// no lines.  Answers [`Fetched::NeedsRead`] when the caller must read
    /// first and come back through [`Self::random_line_after_read`].
    pub fn random_line(&mut self, path: &str, stat: &StatOutcome) -> (r: Fetched<Option<String>>)
        ensures
            refresh_rel(*old(self), *final(self), path@, *stat),
            budgets_kept(*old(self), *final(self)),
            (match r {
                Fetched::Done(opt) => exists|ls: Seq<Seq<char>>|
                    (#[trigger] final(self).lines_map().contains_pair(path@, ls))
                        && random_line_of(ls, opt.deep_view()),
                Fetched::NeedsRead => true,
            }),
            !final(self).lines_map().dom().contains(path@) ==> r is NeedsRead,
    {
        self.refresh(path, stat);
        match lines_store_get(&self.lines, path) {
            Option::Some(shared) => {
                let answer = pick_line(&shared);
                proof {
                    assert(self.lines_map().contains_pair(path@, shared.deep_view())
                        && random_line_of(shared.deep_view(), answer.deep_view()));
                }
                Fetched::Done(answer)
            },
            Option::None => Fetched::NeedsRead,
        }
    }

    /// Complete a random-line request after the caller has read the file:
    /// record the read outcome, then draw from the fresh sequence.
    pub fn random_line_after_read(&mut self, path: &str, read: ReadOutcome) -> (r: Option<String>)
        ensures
            budgets_kept(*old(self), *final(self)),
            (match read {
                ReadOutcome::Present(c, fp) => {
                    &&& final(self).lines_map() == old(self).lines_map().insert(
                        path@,
                        split_spec(c@),
                    )
                    &&& final(self).meta_map() == old(self).meta_map().insert(
                        path@,
                        fp.spec_triple(),
                    )
                    &&& final(self).contents_map() == old(self).contents_map()
                    &&& random_line_of(split_spec(c@), r.deep_view())
                },
                ReadOutcome::Absent => {
                    &&& entries_dropped(*old(self), *final(self), path@)
                    &&& r is None
                },
            }),
    {
        let shared = self.load_lines(path, read);
        pick_line(&shared)
    }

    /// Serve a uniformly chosen character of a uniformly chosen line of
    /// `path`, decoded per Unicode scalar value; absent when the file has
    /// no lines or the chosen line is empty.
    pub fn random_sign_char(&mut self, path: &str, stat: &StatOutcome) -> (r: Fetched<Option<char>>)
        ensures
            refresh_rel(*old(self), *final(self), path@, *stat),
            budgets_kept(*old(self), *final(self)),
            (match r {
                Fetched::Done(opt) => exists|ls: Seq<Seq<char>>|
                    (#[trigger] final(self).lines_map().contains_pair(path@, ls))
                        && random_char_of(ls, opt),
                Fetched::NeedsRead => true,
            }),
            !final(self).lines_map().dom().contains(path@) ==> r is NeedsRead,
    {
        self.refresh(path, stat);
        match lines_store_get(&self.lines, path) {
            Option::Some(shared) => {
                let answer = pick_char(&shared);
                proof {
                    assert(self.lines_map().contains_pair(path@, shared.deep_view())
                        && random_char_of(shared.deep_view(), answer));
                }
                Fetched::Done(answer)
            },
            Option::None => Fetched::NeedsRead,
        }
    }

    /// Complete a random-character request after the caller has read the
    /// file.
    pub fn random_sign_char_after_read(&mut self, path: &str, read: ReadOutcome) -> (r: Option<
        char,
    >)
        ensures
            budgets_kept(*old(self), *final(self)),
            (match read {
                ReadOutcome::Present(c, fp) => {
                    &&& final(self).lines_map() == old(self).lines_map().insert(
                        path@,
                        split_spec(c@),
                    )
                    &&& final(self).meta_map() == old(self).meta_map().insert(
                        path@,
                        fp.spec_triple(),
                    )
                    &&& final(self).contents_map() == old(self).contents_map()
                    &&& random_char_of(split_spec(c@), r)
                },
                ReadOutcome::Absent => {
                    &&& entries_dropped(*old(self), *final(self), path@)
                    &&& r is None
                },
            }),
    {
        let shared = self.load_lines(path, read);
        pick_char(&shared)
    }

    /// As [`Self::random_sign_char`], but the character comes back as owned
    /// text.
    pub fn random_sign(&mut self, path: &str, stat: &StatOutcome) -> (r: Fetched<Option<String>>)
        ensures
            refresh_rel(*old(self), *final(self), path@, *stat),
            budgets_kept(*old(self), *final(self)),
            (match r {
                Fetched::Done(opt) => exists|ls: Seq<Seq<char>>|
                    (#[trigger] final(self).lines_map().contains_pair(path@, ls)) && sign_text_of(
                        ls,
                        opt.deep_view(),
                    ),
                Fetched::NeedsRead => true,
            }),
            !final(self).lines_map().dom().contains(path@) ==> r is NeedsRead,
    {
        match self.random_sign_char(path, stat) {
            Fetched::Done(opt) => {
                let text = match opt {
                    Option::Some(ch) => Option::Some(char_text(ch)),
                    Option::None => Option::None,
                };
                Fetched::Done(text)
            },
            Fetched::NeedsRead => Fetched::NeedsRead,
        }
    }

    /// Complete a [`Self::random_sign`] request after the caller has read
    /// the file.
    pub fn random_sign_after_read(&mut self, path: &str, read: ReadOutcome) -> (r: Option<String>)
        ensures
            budgets_kept(*old(self), *final(self)),
            (match read {
                ReadOutcome::Present(c, fp) => {
                    &&& final(self).lines_map() == old(self).lines_map().insert(
                        path@,
                        split_spec(c@),
                    )
                    &&& final(self).meta_map() == old(self).meta_map().insert(
                        path@,
                        fp.spec_triple(),
                    )
                    &&& final(self).contents_map() == old(self).contents_map()
                    &&& sign_text_of(split_spec(c@), r.deep_view())
                },
                ReadOutcome::Absent => {
                    &&& entries_dropped(*old(self), *final(self), path@)
                    &&& r is None
                },
            }),
    {
        match self.random_sign_char_after_read(path, read) {
            Option::Some(ch) => Option::Some(char_text(ch)),
            Option::None => Option::None,
        }
    }

    /// The total weight resident in the line store once pending
    /// maintenance has settled: never above the byte budget the store was
    /// built with, however the entries got there.
    pub fn lines_weight(&self) -> (r: u64)
        ensures
            r <= self.lines_budget(),
    {
        lines_store_settled_weight(&self.lines)
    }

    /// The total weight resident in the content store once pending
    /// maintenance has settled: never above the byte budget the store was
    /// built with, however the entries got there.
    pub fn contents_weight(&self) -> (r: u64)
        ensures
            r <= self.contents_budget(),
    {
        content_store_settled_weight(&self.contents)
    }
}

/// How a single-character text answer reflects the cached lines: one
/// character of some line, as text of length one.
pub open spec fn sign_text_of(ls: Seq<Seq<char>>, o: Option<Seq<char>>) -> bool {
    match o {
        Option::Some(t) => t.len() == 1 && exists|i: int|
            0 <= i < ls.len() && (#[trigger] ls[i]).contains(t[0]),
        Option::None => ls.len() == 0 || exists|i: int|
            0 <= i < ls.len() && (#[trigger] ls[i]).len() == 0,
    }
}

/// The 1-based line `lineno` of `lines`, cloned out; 0 and past-the-end
/// numbers are absent.
pub fn line_at(lines: &Vec<String>, lineno: usize) -> (r: Option<String>)
    ensures
        r.deep_view() == line_of(lines.deep_view(), lineno as int),
{
    if 1 <= lineno && lineno <= lines.len() {
        Option::Some(lines[lineno - 1].clone())
    } else {
        Option::None
    }
}

/// The byte floor enforced on the discovered total memory, keeping the
/// cache usable in memory-constrained environments.
pub const MEMORY_FLOOR: u64 = 1024 * 1024 * 1024;

/// The entry capacity the recommended configuration gives the fingerprint
/// store; fingerprint entries are tiny and uniform, so it is a count, not
/// a byte budget.
pub const FINGERPRINT_CAPACITY: u64 = 8192;

/// The per-store byte budget derived from total physical memory: 85
/// percent of the total -- floored at [`MEMORY_FLOOR`] -- split evenly
/// between the line store and the content store.
pub open spec fn spec_per_store_budget(total_memory: u64) -> int {
    let floored: int = if total_memory < MEMORY_FLOOR {
        MEMORY_FLOOR as int
    } else {
        total_memory as int
    };
    floored * 85 / 100 / 2
}

/// Derive the per-store byte budget from the discovered total physical
/// memory, exactly as [`spec_per_store_budget`] states.
pub fn per_store_budget(total_memory: u64) -> (r: u64)
    ensures
        r == spec_per_store_budget(total_memory),
{
    let floored: u64 = if total_memory < MEMORY_FLOOR {
        MEMORY_FLOOR
    } else {
        total_memory
    };
    proof {
        let f = floored as int;
        assert(f * 85 <= f * 100) by (nonlinear_arith)
            requires f >= 0,
        ;
        vstd::arithmetic::div_mod::lemma_div_is_ordered(f * 85, f * 100, 100);
        vstd::arithmetic::div_mod::lemma_div_by_multiple(f, 100);
        assert(f * 85 / 100 <= f);
        vstd::arithmetic::div_mod::lemma_div_is_ordered(f * 85 / 100, f, 2);
        vstd::arithmetic::div_mod::lemma_div_is_ordered_by_denominator(f, 1, 2);
        vstd::arithmetic::div_mod::lemma_div_basics(f);
        assert(f * 85 / 100 / 2 <= f);
        assert(f * 85 >= 0) by (nonlinear_arith)
            requires f >= 0,
        ;
        vstd::arithmetic::div_mod::lemma_div_pos_is_pos(f * 85, 100);
        vstd::arithmetic::div_mod::lemma_div_pos_is_pos(f * 85 / 100, 2);
    }
    let wide: u128 = (floored as u128) * 85 / 100 / 2;
    wide as u64
}

/// Serving a line number of 0, or one beyond the line count, is absent,
/// whatever the cached lines hold; it is never an error.
pub proof fn lemma_line_out_of_range(ls: Seq<Seq<char>>, lineno: int)
    requires
        lineno < 1 || lineno > ls.len(),
    ensures
        line_of(ls, lineno) is None,
{
}

/// Invalidating one path leaves every other path's entries untouched, in
/// all three stores.
pub proof fn lemma_invalidate_isolates(
    pre: LineCache,
    post: LineCache,
    p: Seq<char>,
    q: Seq<char>,
)
    requires
        entries_dropped(pre, post, p),
        q != p,
    ensures
        post.lines_map().dom().contains(q) == pre.lines_map().dom().contains(q),
        post.lines_map().dom().contains(q) ==> post.lines_map()[q] == pre.lines_map()[q],
        post.contents_map().dom().contains(q) == pre.contents_map().dom().contains(q),
        post.contents_map().dom().contains(q) ==> post.contents_map()[q] == pre.contents_map()[q],
        post.meta_map().dom().contains(q) == pre.meta_map().dom().contains(q),
        post.meta_map().dom().contains(q) ==> post.meta_map()[q] == pre.meta_map()[q],
{
}

/// Invalidation makes the path a fresh miss: with its entries dropped from
/// every store, no lookup can serve it until a new read loads it again.
pub proof fn lemma_invalidate_forces_miss(pre: LineCache, post: LineCache, p: Seq<char>)
    requires
        entries_dropped(pre, post, p),
    ensures
        !post.lines_map().dom().contains(p),
        !post.contents_map().dom().contains(p),
        !post.meta_map().dom().contains(p),
{
}

/// A file rewritten with a different size or modification time is reloaded
/// wholesale: when the stat outcome differs from the cached fingerprint --
/// or the file is gone -- the freshness step leaves no entry for the path
/// in any store, so whatever is served next derives entirely from a fresh
/// read, never a mix of old and new lines.
pub proof fn lemma_changed_file_forces_reload(
    pre: LineCache,
    post: LineCache,
    p: Seq<char>,
    stat: StatOutcome,
    cached: (u64, u32, u64),
)
    requires
        refresh_rel(pre, post, p, stat),
        pre.meta_map().contains_pair(p, cached),
        (match stat {
            StatOutcome::Present(fp) => fp.spec_triple() != cached,
            StatOutcome::Absent => true,
        }),
    ensures
        entries_dropped(pre, post, p),
        !post.lines_map().dom().contains(p),
        !post.contents_map().dom().contains(p),
        !post.meta_map().dom().contains(p),
{
    match stat {
        StatOutcome::Present(fp) => {
            if same_entries(pre, post) && pre.meta_map().contains_pair(p, fp.spec_triple()) {
                assert(pre.meta_map()[p] == cached);
                assert(pre.meta_map()[p] == fp.spec_triple());
                assert(false);
            }
        },
        StatOutcome::Absent => {
        },
    }
    assert(entries_dropped(pre, post, p));
}

/// What a hit serves after a load: once a load has recorded the split of
/// some content for a path, any line sequence a later freshness step and
/// hit still serve for that path is exactly that split -- the stores only
/// ever replace a path's lines wholesale, so old and new lines never mix.
pub proof fn lemma_hit_serves_loaded_lines(
    mid: LineCache,
    post: LineCache,
    p: Seq<char>,
    stat: StatOutcome,
    loaded: Seq<Seq<char>>,
    served: Seq<Seq<char>>,
)
    requires
        mid.lines_map().contains_pair(p, loaded),
        refresh_rel(mid, post, p, stat),
        post.lines_map().contains_pair(p, served),
    ensures
        served == loaded,
{
    if entries_dropped(mid, post, p) {
        assert(!post.lines_map().dom().contains(p));
        assert(false);
    }
}

/// The content-store counterpart of [`lemma_hit_serves_loaded_lines`]:
/// a content hit that survives the freshness step is the verbatim content
/// last stored for that path.
pub proof fn lemma_hit_serves_stored_content(
    mid: LineCache,
    post: LineCache,
    p: Seq<char>,
    stat: StatOutcome,
    stored: Seq<char>,
    served: Seq<char>,
)
    requires
        mid.contents_map().contains_pair(p, stored),
        refresh_rel(mid, post, p, stat),
        post.contents_map().contains_pair(p, served),
    ensures
        served == stored,
{
    if entries_dropped(mid, post, p) {
        assert(!post.contents_map().dom().contains(p));
        assert(false);
    }
}

/// An owned copy of a shared line sequence.
pub fn clone_lines(lines: &Vec<String>) -> (r: Vec<String>)
    ensures
        r.deep_view() == lines.deep_view(),
{
    let mut out: Vec<String> = Vec::new();
    let mut i: usize = 0;
    proof {
        assert(out.deep_view() =~= lines.deep_view().take(0));
    }
    while i < lines.len()
        invariant
            i <= lines.len(),
            out.deep_view() == lines.deep_view().take(i as int),
        decreases lines.len() - i,
    {
        let ghost prev = out.deep_view();
        out.push(lines[i].clone());
        proof {
            assert(out.deep_view() =~= prev.push(lines.deep_view()[i as int]));
            assert(prev.push(lines.deep_view()[i as int]) =~= lines.deep_view().take(i as int + 1));
        }
        i = i + 1;
    }
    proof {
        assert(lines.deep_view().take(lines.len() as int) =~= lines.deep_view());
    }
    out
}

} // verus!
