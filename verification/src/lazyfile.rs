//! The lazy, create-on-first-write output handle.
//!
//! Generators write through this handle; it defers materialization until
//! the first write, so a generator that produces no content leaves no empty
//! file on disk. The handle itself only gathers text: the caller that owns
//! the file system turns a finished handle into a file exactly when the
//! handle reports content.

use vstd::prelude::*;

verus! {

/// A deferred output file: its destination path, whether the content is to
/// be appended to an existing file, and the gathered content — `None`
/// until the first write.
pub struct LazyCreateBuilder {
    pub path: String,
    pub append: bool,
    pub content: Option<String>,
}

/// Ghost shape of a [`LazyCreateBuilder`].
pub struct LazyCreateBuilderV {
    pub path: Seq<char>,
    pub append: bool,
    pub content: Option<Seq<char>>,
}

impl View for LazyCreateBuilder {
    type V = LazyCreateBuilderV;

    open spec fn view(&self) -> LazyCreateBuilderV {
        LazyCreateBuilderV {
            path: self.path@,
            append: self.append,
            content: match self.content {
                Option::Some(ref s) => Option::Some(s@),
                Option::None => Option::None,
            },
        }
    }
}

/// Whether the handle will materialize a file: exactly when some write
/// occurred.
pub open spec fn creates_file(b: LazyCreateBuilderV) -> bool {
    b.content is Some
}

/// The handle state after one write of `piece`.
pub open spec fn written(b: LazyCreateBuilderV, piece: Seq<char>) -> LazyCreateBuilderV {
    LazyCreateBuilderV {
        path: b.path,
        append: b.append,
        content: match b.content {
            Option::Some(c) => Option::Some(c + piece),
            Option::None => Option::Some(piece),
        },
    }
}

impl LazyCreateBuilder {
    /// A fresh handle for `path`; it materializes nothing until written to.
    pub fn new(path: String, append: bool) -> (r: LazyCreateBuilder)
        ensures
            r@.path == path@,
            r@.append == append,
            r@.content is None,
            !creates_file(r@),
    {
        LazyCreateBuilder { path, append, content: Option::None }
    }

    /// Writes `piece`; the first write switches the handle to materializing.
    pub fn write(&mut self, piece: &str)
        ensures
            final(self)@ == written(old(self)@, piece@),
            creates_file(final(self)@),
    {
        match &mut self.content {
            Option::Some(c) => {
                c.append(piece);
            },
            Option::None => {
                self.content = Option::Some(String::from_str(piece));
            },
        }
    }

    /// Whether a write has occurred, i.e. whether a file is owed on disk.
    pub fn is_created(&self) -> (r: bool)
        ensures
            r == creates_file(self@),
    {
        self.content.is_some()
    }

    /// Hands the handle's parts out for materialization: destination path,
    /// append mode, and the gathered content — `None` exactly when no
    /// write occurred, in which case no file may be created.
    pub fn into_parts(self) -> (r: (String, bool, Option<String>))
        ensures
            r.0@ == self@.path,
            r.1 == self@.append,
            match r.2 {
                Option::Some(c) => self@.content == Option::Some(c@),
                Option::None => self@.content is None,
            },
    {
        (self.path, self.append, self.content)
    }
}

/// The handle states reached by a run of writes from a fresh handle.
pub open spec fn after_writes(b: LazyCreateBuilderV, writes: Seq<Seq<char>>) -> LazyCreateBuilderV
    decreases writes.len(),
{
    if writes.len() == 0 {
        b
    } else {
        after_writes(written(b, writes[0]), writes.drop_first())
    }
}

/// The lazy handle creates a file if and only if at least one write
/// occurred: a fresh handle put through a run of writes materializes a
/// file exactly when the run is non-empty.
pub proof fn lemma_lazy_creates_iff_written(path: Seq<char>, append: bool, writes: Seq<Seq<char>>)
    ensures
        creates_file(
            after_writes(
                LazyCreateBuilderV { path, append, content: Option::None },
                writes,
            ),
        ) <==> writes.len() > 0,
{
    let fresh = LazyCreateBuilderV { path, append, content: Option::None };
    if writes.len() > 0 {
        lemma_written_stays_created(written(fresh, writes[0]), writes.drop_first());
    }
}

proof fn lemma_written_stays_created(b: LazyCreateBuilderV, writes: Seq<Seq<char>>)
    requires
        creates_file(b),
    ensures
        creates_file(after_writes(b, writes)),
    decreases writes.len(),
{
    if writes.len() > 0 {
        lemma_written_stays_created(written(b, writes[0]), writes.drop_first());
    }
}

/// The output path owed for an instance file: `dir/name.extension`, or
/// `dir/name` when the extension is empty.
pub open spec fn builder_path(dir: Seq<char>, name: Seq<char>, extension: Seq<char>) -> Seq<char> {
    if extension.len() > 0 {
        dir + "/"@ + name + "."@ + extension
    } else {
        dir + "/"@ + name
    }
}

/// A lazy handle for the file `name` with `extension` under `dest_dir`,
/// materialized only on first write.
pub fn create_lazy_builder(dest_dir: &str, name: &str, extension: &str, append: bool) -> (r:
    LazyCreateBuilder)
    ensures
        r@.path == builder_path(dest_dir@, name@, extension@),
        r@.append == append,
        !creates_file(r@),
{
    let mut path = String::from_str(dest_dir);
    path.append("/");
    path.append(name);
    if extension.unicode_len() > 0 {
        path.append(".");
        path.append(extension);
    }
    LazyCreateBuilder::new(path, append)
}

} // verus!
