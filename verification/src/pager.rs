//! The list of sources to page and their pairing with error streams.

use crate::config::{Config, InterfaceMode};
use crate::display::{initial_view, Display};
use crate::prompt::cleared;
use crate::refresh::Refresh;
use crate::file::{FileInfo, FileKind};
use vec_map::VecMap;
use vstd::prelude::*;
use vstd::string::StringExecFns;

verus! {

/// The map type of the `vec_map` crate, opaque to the verifier.
#[verifier::external_type_specification]
#[verifier::external_body]
#[verifier::reject_recursive_types(V)]
pub struct ExVecMap<V>(VecMap<V>);

/// The key-value pairs that a `VecMap<usize>` holds.
pub uninterp spec fn vec_map_entries(m: VecMap<usize>) -> Map<usize, usize>;

/// `VecMap::new`: a map without entries.
#[verifier::external_body]
fn vec_map_new() -> (m: VecMap<usize>)
    ensures
        vec_map_entries(m).dom() == Set::<usize>::empty(),
{
    VecMap::new()
}

/// `VecMap::insert`: sets the value at `key` and returns the value that
/// was there before, if any. The map grows its storage to `key + 1` slots,
/// so `key + 1` must be representable.
#[verifier::external_body]
fn vec_map_insert(m: &mut VecMap<usize>, key: usize, value: usize) -> (previous: Option<usize>)
    requires
        key < usize::MAX,
    ensures
        vec_map_entries(*final(m)) == vec_map_entries(*old(m)).insert(key, value),
        previous == if vec_map_entries(*old(m)).contains_key(key) {
            Some(vec_map_entries(*old(m))[key])
        } else {
            None
        },
{
    m.insert(key, value)
}

/// `VecMap::get`: the value at `key`, if the map holds one.
#[verifier::external_body]
pub(crate) fn vec_map_get(m: &VecMap<usize>, key: usize) -> (value: Option<usize>)
    ensures
        value == if vec_map_entries(*m).contains_key(key) {
            Some(vec_map_entries(*m)[key])
        } else {
            None
        },
{
    m.get(key).copied()
}

/// Title of the error stream of a subprocess titled `title`.
pub open spec fn error_title(title: Seq<char>) -> Seq<char> {
    "STDERR for "@ + title
}

/// The title of the error stream of a subprocess titled `title`.
pub fn subprocess_error_title(title: &str) -> (text: String)
    ensures
        text@ == error_title(title@),
{
    let mut text = String::from_str("STDERR for ");
    text.append(title);
    text
}

/// Whether `info` describes the source at position `index` with the given
/// title and kind.
pub open spec fn describes_file(info: FileInfo, index: int, title: Seq<char>, kind: FileKind) -> bool {
    info.index == index && info.title@ == title && info.kind == kind
}

/// Whether `after` is `before` with one more source at its end.
pub open spec fn one_added(
    before: Seq<FileInfo>,
    after: Seq<FileInfo>,
    title: Seq<char>,
    kind: FileKind,
) -> bool {
    &&& after.len() == before.len() + 1
    &&& after.take(before.len() as int) == before
    &&& describes_file(after[before.len() as int], before.len() as int, title, kind)
}

/// The index of the source added last that is not an error stream, if
/// there is one. `errors` says of each source whether it is an error
/// stream.
pub open spec fn last_output(errors: Seq<bool>) -> Option<int>
    decreases errors.len(),
{
    if errors.len() == 0 {
        None
    } else if !errors.last() {
        Some(errors.len() - 1)
    } else {
        last_output(errors.drop_last())
    }
}

/// `pairing` after the error stream `index` was attached: it belongs to
/// the output source added last and takes the place of an error stream
/// attached to that source before. Without an output source nothing is
/// paired.
pub open spec fn attached(pairing: Map<usize, usize>, errors: Seq<bool>, index: usize) -> Map<
    usize,
    usize,
> {
    match last_output(errors) {
        Some(output) => pairing.insert(output as usize, index),
        None => pairing,
    }
}

/// The output source added last is a source, is no error stream, and
/// every source behind it is an error stream.
pub proof fn lemma_last_output(errors: Seq<bool>)
    ensures
        match last_output(errors) {
            Some(output) => 0 <= output < errors.len() && !errors[output] && forall|j: int|
                output < j < errors.len() ==> errors[j],
            None => forall|j: int| 0 <= j < errors.len() ==> errors[j],
        },
    decreases errors.len(),
{
    if errors.len() > 0 && errors.last() {
        let rest = errors.drop_last();
        lemma_last_output(rest);
        assert forall|j: int| 0 <= j < rest.len() implies rest[j] == errors[j] by {}
        match last_output(rest) {
            Some(output) => {
                assert forall|j: int| output < j < errors.len() implies errors[j] by {
                    if j < rest.len() {
                        assert(rest[j]);
                    }
                }
            },
            None => {
                assert forall|j: int| 0 <= j < errors.len() implies errors[j] by {
                    if j < rest.len() {
                        assert(rest[j]);
                    }
                }
            },
        }
    }
}

/// The sources to page, in the order in which they were added, which is
/// the order in which they are shown.
///
/// An error stream is paired with an output source: the pairing maps the
/// index of the output source to the index of its error stream. An
/// output source has at most one error stream, and no error stream has
/// one of its own.
pub struct Pager {
    files: Vec<FileInfo>,
    errors: Vec<bool>,
    error_files: VecMap<usize>,
    progress: bool,
    config: Config,
}

impl Pager {
    /// The sources in display order.
    pub closed spec fn files(&self) -> Seq<FileInfo> {
        self.files@
    }

    /// For each source, whether it is an error stream.
    pub closed spec fn error_streams(&self) -> Seq<bool> {
        self.errors@
    }

    /// The pairing of output sources with error streams, by index.
    pub closed spec fn error_files(&self) -> Map<usize, usize> {
        vec_map_entries(self.error_files)
    }

    /// Whether a progress stream is attached.
    pub closed spec fn has_progress(&self) -> bool {
        self.progress
    }

    /// The options.
    pub closed spec fn config(&self) -> Config {
        self.config
    }

    /// Every source carries its own position as index and is known as an
    /// error stream or not. Every key of the pairing is an output source,
    /// and its value is an error stream added later.
    pub closed spec fn wf(&self) -> bool {
        &&& self.errors@.len() == self.files@.len()
        &&& forall|i: int| 0 <= i < self.files@.len() ==> (#[trigger] self.files@[i]).index == i
        &&& forall|k: usize| #[trigger]
            vec_map_entries(self.error_files).contains_key(k) ==> {
                &&& k < vec_map_entries(self.error_files)[k] < self.files@.len()
                &&& !self.errors@[k as int]
                &&& self.errors@[vec_map_entries(self.error_files)[k] as int]
            }
    }

    /// What `wf` says, over the public view.
    pub proof fn lemma_wf(&self)
        requires
            self.wf(),
        ensures
            self.error_streams().len() == self.files().len(),
            forall|i: int| 0 <= i < self.files().len() ==> (#[trigger] self.files()[i]).index == i,
            forall|k: usize| #[trigger]
                self.error_files().contains_key(k) ==> {
                    &&& k < self.error_files()[k] < self.files().len()
                    &&& !self.error_streams()[k as int]
                    &&& self.error_streams()[self.error_files()[k] as int]
                },
    {
    }

    /// The index of the output source added last, if there is one.
    fn latest_output(&self) -> (output: Option<usize>)
        ensures
            match output {
                Some(k) => last_output(self.errors@) == Some(k as int),
                None => last_output(self.errors@) is None,
            },
    {
        let mut i: usize = self.errors.len();
        proof {
            assert(self.errors@.take(i as int) == self.errors@);
        }
        while i > 0
            invariant
                i <= self.errors@.len(),
                last_output(self.errors@) == last_output(self.errors@.take(i as int)),
            decreases i,
        {
            i -= 1;
            proof {
                assert(self.errors@.take(i + 1).drop_last() == self.errors@.take(i as int));
            }
            if !self.errors[i] {
                return Some(i);
            }
        }
        None
    }

    /// A pager without sources.
    pub fn new(config: Config) -> (pager: Pager)
        ensures
            pager.wf(),
            pager.files() == Seq::<FileInfo>::empty(),
            pager.error_streams() == Seq::<bool>::empty(),
            pager.error_files() == Map::<usize, usize>::empty(),
            !pager.has_progress(),
            pager.config() == config,
    {
        let pager = Pager {
            files: Vec::new(),
            errors: Vec::new(),
            error_files: vec_map_new(),
            progress: false,
            config,
        };
        assert(pager.error_files() =~= Map::<usize, usize>::empty());
        pager
    }

    /// Adds a stream to be paged. Returns its index.
    pub fn add_output_stream(&mut self, title: &str) -> (index: usize)
        requires
            old(self).wf(),
        ensures
            final(self).wf(),
            index == old(self).files().len(),
            one_added(old(self).files(), final(self).files(), title@, FileKind::Stream),
            final(self).error_streams() == old(self).error_streams().push(false),
            final(self).error_files() == old(self).error_files(),
            final(self).has_progress() == old(self).has_progress(),
            final(self).config() == old(self).config(),
    {
        let index = self.files.len();
        self.files.push(FileInfo { index, title: title.to_owned(), kind: FileKind::Stream });
        self.errors.push(false);
        assert(self.files@.take(index as int) == old(self).files@);
        index
    }

    /// Adds an error stream and pairs it with the output source added
    /// last: the last source that is not itself an error stream. An error
    /// stream that was paired with that source before gives way to the new
    /// one. Without an output source the error stream stays unpaired.
    /// Returns the index of the error stream.
    pub fn add_error_stream(&mut self, title: &str) -> (index: usize)
        requires
            old(self).wf(),
        ensures
            final(self).wf(),
            index == old(self).files().len(),
            one_added(old(self).files(), final(self).files(), title@, FileKind::Stream),
            final(self).error_streams() == old(self).error_streams().push(true),
            final(self).error_files() == attached(
                old(self).error_files(),
                old(self).error_streams(),
                index,
            ),
            final(self).has_progress() == old(self).has_progress(),
            final(self).config() == old(self).config(),
    {
        let index = self.files.len();
        let output = self.latest_output();
        proof {
            lemma_last_output(self.errors@);
        }
        self.files.push(FileInfo { index, title: title.to_owned(), kind: FileKind::Stream });
        self.errors.push(true);
        assert(self.files@.take(index as int) == old(self).files@);
        if let Some(output) = output {
            vec_map_insert(&mut self.error_files, output, index);
        }
        index
    }

    /// Adds a file on disk to be paged. Its name is its title. Returns its
    /// index.
    pub fn add_output_file(&mut self, filename: &str) -> (index: usize)
        requires
            old(self).wf(),
        ensures
            final(self).wf(),
            index == old(self).files().len(),
            one_added(old(self).files(), final(self).files(), filename@, FileKind::Disk),
            final(self).error_streams() == old(self).error_streams().push(false),
            final(self).error_files() == old(self).error_files(),
            final(self).has_progress() == old(self).has_progress(),
            final(self).config() == old(self).config(),
    {
        let index = self.files.len();
        self.files.push(FileInfo { index, title: filename.to_owned(), kind: FileKind::Disk });
        self.errors.push(false);
        assert(self.files@.take(index as int) == old(self).files@);
        index
    }

    /// Adds the output and the error stream of a subprocess as a pair.
    /// Returns the index of the output; the error stream stands directly
    /// behind it.
    pub fn add_subprocess(&mut self, title: &str) -> (index: usize)
        requires
            old(self).wf(),
        ensures
            final(self).wf(),
            index == old(self).files().len(),
            final(self).files().len() == index + 2,
            final(self).files().take(index as int) == old(self).files(),
            describes_file(
                final(self).files()[index as int],
                index as int,
                title@,
                FileKind::SubprocessOut,
            ),
            describes_file(
                final(self).files()[index + 1],
                index + 1,
                error_title(title@),
                FileKind::SubprocessErr,
            ),
            final(self).error_streams() == old(self).error_streams().push(false).push(true),
            final(self).error_files() == old(self).error_files().insert(index, (index + 1) as usize),
            final(self).has_progress() == old(self).has_progress(),
            final(self).config() == old(self).config(),
    {
        let index = self.files.len();
        self.files.push(FileInfo { index, title: title.to_owned(), kind: FileKind::SubprocessOut });
        self.errors.push(false);
        self.errors.push(true);
        let error_index = self.files.len();
        self.files.push(
            FileInfo {
                index: error_index,
                title: subprocess_error_title(title),
                kind: FileKind::SubprocessErr,
            },
        );
        vec_map_insert(&mut self.error_files, index, error_index);
        proof {
            assert(self.files@.take(index as int) == old(self).files@);
        }
        index
    }

    /// Notes that a progress stream is attached.
    pub fn set_progress_stream(&mut self)
        ensures
            final(self).has_progress(),
            final(self).files() == old(self).files(),
            final(self).error_streams() == old(self).error_streams(),
            final(self).error_files() == old(self).error_files(),
            final(self).config() == old(self).config(),
            old(self).wf() ==> final(self).wf(),
    {
        self.progress = true;
    }

    /// Sets when the pager takes over the whole screen.
    pub fn set_interface_mode(&mut self, value: InterfaceMode)
        ensures
            final(self).config() == (Config { interface_mode: value, ..old(self).config() }),
            final(self).files() == old(self).files(),
            final(self).error_streams() == old(self).error_streams(),
            final(self).error_files() == old(self).error_files(),
            final(self).has_progress() == old(self).has_progress(),
            old(self).wf() ==> final(self).wf(),
    {
        self.config.interface_mode = value;
    }

    /// Sets whether the last line may scroll above the bottom row.
    pub fn set_scroll_past_eof(&mut self, value: bool)
        ensures
            final(self).config() == (Config { scroll_past_eof: value, ..old(self).config() }),
            final(self).files() == old(self).files(),
            final(self).error_streams() == old(self).error_streams(),
            final(self).error_files() == old(self).error_files(),
            final(self).has_progress() == old(self).has_progress(),
            old(self).wf() ==> final(self).wf(),
    {
        self.config.scroll_past_eof = value;
    }

    /// Sets how many lines beyond the viewport are laid out after a redraw.
    pub fn set_read_ahead_lines(&mut self, lines: usize)
        ensures
            final(self).config() == (Config { read_ahead_lines: lines, ..old(self).config() }),
            final(self).files() == old(self).files(),
            final(self).error_streams() == old(self).error_streams(),
            final(self).error_files() == old(self).error_files(),
            final(self).has_progress() == old(self).has_progress(),
            old(self).wf() ==> final(self).wf(),
    {
        self.config.read_ahead_lines = lines;
    }

    /// Hands the sources, their pairing and the options over to the main
    /// loop, for a screen of `width` columns and `height` rows, and
    /// returns the state in which the loop starts.
    pub fn run(self, width: usize, height: usize) -> (display: Display)
        requires
            self.wf(),
        ensures
            display.wf(),
            display@ == initial_view(
                self.files().len() as usize,
                self.error_files(),
                self.config(),
                width,
                height,
            ),
            display.keymap()@ == crate::command::default_bindings(),
            display.refresh() == Refresh::initial(),
            display.prompt()@ == cleared(Seq::empty()),
    {
        Display::start(self.files.len(), self.error_files, self.config, width, height)
    }

    /// Number of sources.
    pub fn file_count(&self) -> (n: usize)
        ensures
            n == self.files().len(),
    {
        self.files.len()
    }

    /// The source at position `index`, if there is one.
    pub fn file(&self, index: usize) -> (info: Option<&FileInfo>)
        ensures
            match info {
                Some(info) => index < self.files().len() && *info == self.files()[index as int],
                None => index >= self.files().len(),
            },
    {
        if index < self.files.len() {
            Some(&self.files[index])
        } else {
            None
        }
    }

    /// The options.
    pub fn options(&self) -> (config: Config)
        ensures
            config == self.config(),
    {
        self.config
    }

    /// Whether a progress stream is attached.
    pub fn shows_progress(&self) -> (progress: bool)
        ensures
            progress == self.has_progress(),
    {
        self.progress
    }

    /// Whether source `index` is an error stream.
    pub fn is_error_stream(&self, index: usize) -> (error: bool)
        ensures
            error == (index < self.error_streams().len() && self.error_streams()[index as int]),
    {
        index < self.errors.len() && self.errors[index]
    }

    /// The error stream paired with source `index`, if there is one.
    pub fn error_file(&self, index: usize) -> (paired: Option<usize>)
        ensures
            paired == if self.error_files().contains_key(index) {
                Some(self.error_files()[index])
            } else {
                None
            },
    {
        vec_map_get(&self.error_files, index)
    }
}

} // verus!
