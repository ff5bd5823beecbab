//! Memo of line layouts at the current width.

use crate::layout::{copy_rows, rows_view};
use crate::overstrike::Cell;
use std::collections::HashMap;
use vstd::prelude::*;

verus! {

broadcast use vstd::std_specs::hash::group_hash_axioms;

/// Layouts of lines, keyed by line number, all computed at one width.
///
/// A change of width drops every entry: layouts of another width are never
/// kept.
pub struct LineCache {
    width: usize,
    rows: HashMap<usize, Vec<Vec<Cell>>>,
}

impl LineCache {
    /// The width at which the entries were computed.
    pub closed spec fn width(&self) -> usize {
        self.width
    }

    /// The cached layouts by line number.
    pub closed spec fn entries(&self) -> Map<usize, Seq<Seq<Cell>>> {
        self.rows@.map_values(|v: Vec<Vec<Cell>>| rows_view(v@))
    }

    /// An empty cache for `width` columns.
    pub fn new(width: usize) -> (cache: LineCache)
        ensures
            cache.width() == width,
            cache.entries() == Map::<usize, Seq<Seq<Cell>>>::empty(),
    {
        let cache = LineCache { width, rows: HashMap::new() };
        assert(cache.entries() =~= Map::<usize, Seq<Seq<Cell>>>::empty());
        cache
    }

    /// The width at which the entries were computed.
    pub fn current_width(&self) -> (width: usize)
        ensures
            width == self.width(),
    {
        self.width
    }

    /// Sets the width. If it differs from the current one, every entry is
    /// dropped.
    pub fn resize(&mut self, width: usize)
        ensures
            final(self).width() == width,
            width == old(self).width() ==> final(self).entries() == old(self).entries(),
            width != old(self).width() ==> final(self).entries() == Map::<
                usize,
                Seq<Seq<Cell>>,
            >::empty(),
    {
        if width != self.width {
            self.rows.clear();
            self.width = width;
            assert(self.entries() =~= Map::<usize, Seq<Seq<Cell>>>::empty());
        }
    }

    /// A copy of the layout cached for `line`, if there is one.
    pub fn lookup(&self, line: usize) -> (found: Option<Vec<Vec<Cell>>>)
        ensures
            match found {
                Some(rows) => self.entries().contains_key(line) && rows_view(rows@)
                    == self.entries()[line],
                None => !self.entries().contains_key(line),
            },
    {
        match self.rows.get(&line) {
            Some(rows) => Some(copy_rows(rows)),
            None => None,
        }
    }

    /// Caches `rows` as the layout of `line`.
    pub fn store(&mut self, line: usize, rows: Vec<Vec<Cell>>)
        ensures
            final(self).width() == old(self).width(),
            final(self).entries() == old(self).entries().insert(line, rows_view(rows@)),
    {
        let ghost view = rows_view(rows@);
        self.rows.insert(line, rows);
        assert(self.entries() =~= old(self).entries().insert(line, view));
    }

    /// Drops the layout cached for `line`, if there is one.
    pub fn forget(&mut self, line: usize)
        ensures
            final(self).width() == old(self).width(),
            final(self).entries() == old(self).entries().remove(line),
    {
        self.rows.remove(&line);
        assert(self.entries() =~= old(self).entries().remove(line));
    }
}

} // verus!
