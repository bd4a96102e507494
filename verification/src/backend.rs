//! The backend: the one object through which the interpreter reaches the
//! output log, the diagnostic sinks, the file store and the task registry.

use crate::command::{
    arg_views, call_expression, capture_view, command_expression, inherit_view, HostReply,
};
use crate::lines::{split_lines, views};
use crate::output::{continue_line, log_view, text_items, write_stdout, OutputItem, OutputItemView};
use crate::png::{encode_png, encoding_view, png_encoding};
use crate::tasks::{wait_view, TaskOutcome, TaskRegistry, TaskTable};
use image::DynamicImage;
use uiua::value::Value;
use uiua::UiuaError;
use vstd::hash_map::StringHashMap;
use vstd::prelude::*;
use vstd::slice::slice_to_vec;

verus! {

/// The state of one interpreter session.
pub struct WebBackend {
    /// The output log, oldest item first.
    pub stdout: Vec<OutputItem>,
    /// Everything written to standard error.
    pub stderr: String,
    /// Everything written to the execution trace.
    pub trace: String,
    /// The virtual file store: path to contents.
    pub files: StringHashMap<Vec<u8>>,
    /// The task registry.
    pub tasks: TaskRegistry,
}

/// The state of a [`WebBackend`] as mathematical values.
pub struct BackendView {
    /// The output log, oldest item first.
    pub log: Seq<OutputItemView>,
    /// Everything written to standard error.
    pub stderr: Seq<char>,
    /// Everything written to the execution trace.
    pub trace: Seq<char>,
    /// The file store: path to contents.
    pub files: Map<Seq<char>, Seq<u8>>,
    /// The task registry.
    pub tasks: TaskTable,
}

impl BackendView {
    /// The state of a new backend.
    pub open spec fn empty() -> BackendView {
        BackendView {
            log: Seq::empty(),
            stderr: Seq::empty(),
            trace: Seq::empty(),
            files: Map::empty(),
            tasks: TaskTable::empty(),
        }
    }

    /// The state after `contents` was written to `path`: it replaces what
    /// the path held.
    pub open spec fn write_file(self, path: Seq<char>, contents: Seq<u8>) -> BackendView {
        BackendView { files: self.files.insert(path, contents), ..self }
    }

    /// What a read of `path` gives: its contents, or the error for a path
    /// that holds no file.
    pub open spec fn read_file(self, path: Seq<char>) -> Result<Seq<u8>, Seq<char>> {
        if self.files.contains_key(path) {
            Ok(self.files[path])
        } else {
            Err(file_not_found(path))
        }
    }

    /// The state after the writes `writes`, each a path with contents, in
    /// order.
    pub open spec fn write_files(self, writes: Seq<(Seq<char>, Seq<u8>)>) -> BackendView
        decreases writes.len(),
    {
        if writes.len() == 0 {
            self
        } else {
            self.write_files(writes.drop_last()).write_file(writes.last().0, writes.last().1)
        }
    }

    /// The state after an image was to be shown: with the encoded image at
    /// the end of the log, or unchanged where encoding failed.
    pub open spec fn with_image(self, encoded: Result<Seq<u8>, Seq<char>>) -> BackendView {
        match encoded {
            Ok(bytes) => BackendView { log: self.log.push(OutputItemView::Image(bytes)), ..self },
            Err(_) => self,
        }
    }
}

impl View for WebBackend {
    type V = BackendView;

    open spec fn view(&self) -> BackendView {
        BackendView {
            log: log_view(self.stdout@),
            stderr: self.stderr@,
            trace: self.trace@,
            files: self.files@.map_values(|bytes: Vec<u8>| bytes@),
            tasks: self.tasks@,
        }
    }
}

impl Default for WebBackend {
    /// A backend with an empty log, empty sinks, no files and no tasks.
    fn default() -> (out: WebBackend)
        ensures
            out@ == BackendView::empty(),
    {
        let out = WebBackend {
            stdout: Vec::new(),
            stderr: String::new(),
            trace: String::new(),
            files: StringHashMap::new(),
            tasks: TaskRegistry::new(),
        };
        assert(out@.log =~= Seq::empty());
        assert(out@.files =~= Map::empty());
        out
    }
}

impl WebBackend {
    /// Writes `s` to standard output: the log becomes
    /// [`write_stdout`] of the old log and `s`. Nothing else changes.
    pub fn print_str_stdout(&mut self, s: &str) -> (res: Result<(), String>)
        ensures
            res is Ok,
            final(self)@ == (BackendView { log: write_stdout(old(self)@.log, s@), ..old(self)@ }),
    {
        let split = split_lines(s);
        let segments = split.lines;
        if segments.len() == 0 {
            return Ok(());
        }
        let first: &str = segments[0].as_str();
        match self.stdout.pop() {
            Some(OutputItem::String(prev)) => {
                let joined = prev.concat(first);
                self.stdout.push(OutputItem::String(joined));
            },
            Some(other) => {
                self.stdout.push(other);
                self.stdout.push(OutputItem::String(first.to_owned()));
            },
            None => {
                self.stdout.push(OutputItem::String(first.to_owned()));
            },
        }
        assert(self@.log == continue_line(old(self)@.log, views(segments@)[0]));
        let ghost base = self@.log;
        let mut i: usize = 1;
        while i < segments.len()
            invariant
                1 <= i <= segments.len(),
                self@.log == base + text_items(views(segments@).subrange(1, i as int)),
                self.stderr == old(self).stderr,
                self.trace == old(self).trace,
                self.files == old(self).files,
                self.tasks == old(self).tasks,
            decreases segments.len() - i,
        {
            let ghost before = self@.log;
            let ghost segment = views(segments@)[i as int];
            self.stdout.push(OutputItem::String(segments[i].clone()));
            proof {
                let done = views(segments@).subrange(1, i as int);
                assert(self@.log == before.push(OutputItemView::String(segment)));
                assert(views(segments@).subrange(1, i + 1) == done.push(segment));
                assert(text_items(done.push(segment)) == text_items(done).push(
                    OutputItemView::String(segment),
                ));
            }
            i += 1;
        }
        assert(views(segments@).subrange(1, segments.len() as int) == views(segments@).skip(1));
        if split.ends_with_newline {
            self.stdout.push(OutputItem::String(String::new()));
        }
        assert(self@.log == write_stdout(old(self)@.log, s@));
        Ok(())
    }

    /// Appends `s` to standard error, as it is.
    pub fn print_str_stderr(&mut self, s: &str) -> (res: Result<(), String>)
        ensures
            res is Ok,
            final(self)@ == (BackendView { stderr: old(self)@.stderr + s@, ..old(self)@ }),
    {
        self.stderr.append(s);
        Ok(())
    }

    /// Appends `s` to the execution trace, as it is.
    pub fn print_str_trace(&mut self, s: &str)
        ensures
            final(self)@ == (BackendView { trace: old(self)@.trace + s@, ..old(self)@ }),
    {
        self.trace.append(s);
    }

    /// Appends one item to the output log.
    pub fn push_item(&mut self, item: OutputItem)
        ensures
            final(self)@ == (BackendView { log: old(self)@.log.push(item@), ..old(self)@ }),
    {
        self.stdout.push(item);
        assert(self@.log =~= old(self)@.log.push(item@));
    }

    /// Appends the outcome of encoding an image to the output log: the
    /// encoded image where there is one. Where the encoder failed, the log
    /// stays as it is and the result is the error that says so.
    pub fn record_image(&mut self, encoded: Result<Vec<u8>, String>) -> (res: Result<(), String>)
        ensures
            final(self)@ == old(self)@.with_image(encoding_view(encoded)),
            match res {
                Ok(_) => encoded is Ok,
                Err(message) => encoded matches Err(cause) && message@ == image_failure(cause@),
            },
    {
        match encoded {
            Ok(bytes) => {
                self.push_item(OutputItem::Image(bytes));
                Ok(())
            },
            Err(cause) => Err(String::from_str("Failed to show image: ").concat(cause.as_str())),
        }
    }

    /// Encodes `image` as PNG and appends it to the output log. Where the
    /// encoder refuses the image, the log stays as it is and the result is
    /// the error that says so.
    pub fn show_image(&mut self, image: DynamicImage) -> (res: Result<(), String>)
        ensures
            final(self)@ == old(self)@.with_image(png_encoding(image)),
            match res {
                Ok(_) => png_encoding(image) is Ok,
                Err(message) => png_encoding(image) matches Err(cause) && message@
                    == image_failure(cause),
            },
    {
        let encoded = encode_png(&image);
        self.record_image(encoded)
    }

    /// Appends an animation to the output log.
    pub fn show_gif(&mut self, gif_bytes: Vec<u8>) -> (res: Result<(), String>)
        ensures
            res is Ok,
            final(self)@ == (BackendView {
                log: old(self)@.log.push(OutputItemView::Gif(gif_bytes@)),
                ..old(self)@
            }),
    {
        self.push_item(OutputItem::Gif(gif_bytes));
        Ok(())
    }

    /// Appends audio to the output log.
    pub fn play_audio(&mut self, wav_bytes: Vec<u8>) -> (res: Result<(), String>)
        ensures
            res is Ok,
            final(self)@ == (BackendView {
                log: old(self)@.log.push(OutputItemView::Audio(wav_bytes@)),
                ..old(self)@
            }),
    {
        self.push_item(OutputItem::Audio(wav_bytes));
        Ok(())
    }

    /// Stores `contents` under `path`, in place of what was there.
    pub fn file_write_all(&mut self, path: &str, contents: &[u8]) -> (res: Result<(), String>)
        ensures
            res is Ok,
            final(self)@ == old(self)@.write_file(path@, contents@),
    {
        self.files.insert(path.to_owned(), slice_to_vec(contents));
        assert(self@.files =~= old(self)@.files.insert(path@, contents@));
        Ok(())
    }

    /// The contents stored under `path`, or the error that names `path` as
    /// missing.
    pub fn file_read_all(&self, path: &str) -> (res: Result<Vec<u8>, String>)
        ensures
            read_view(res) == self@.read_file(path@),
    {
        match self.files.get(path) {
            Some(bytes) => Ok(bytes.clone()),
            None => Err(String::from_str("File not found: ").concat(path)),
        }
    }

    /// Registers a task that has run to completion with `outcome`: issues
    /// the next handle, stores the outcome under it and returns it.
    pub fn spawn(&mut self, outcome: TaskOutcome) -> (res: Result<u64, String>)
        ensures
            res matches Ok(handle) && handle == old(self)@.tasks.next,
            final(self)@ == (BackendView { tasks: old(self)@.tasks.spawn(outcome), ..old(self)@ }),
    {
        Ok(self.tasks.spawn(outcome))
    }

    /// Takes the outcome of the task with the given handle out of the
    /// registry: the values of a task that succeeded, the error of one that
    /// failed, or the error for a handle that has no outcome stored.
    pub fn wait(&mut self, handle: u64) -> (res: Result<Vec<Value>, Result<UiuaError, String>>)
        ensures
            wait_view(res) == old(self)@.tasks.wait_result(handle),
            final(self)@ == (BackendView { tasks: old(self)@.tasks.wait(handle), ..old(self)@ }),
    {
        self.tasks.wait(handle)
    }

    /// Runs `command` with `args` on the host, sharing the caller's output:
    /// hands `bridge` the call expression and turns its reply into the
    /// status of the command, or into the host's error.
    pub fn run_command_inherit<F: FnOnce(String) -> HostReply>(
        &self,
        command: &str,
        args: &[&str],
        bridge: F,
    ) -> (res: Result<i32, String>)
        requires
            forall|code: String|
                code@ == call_expression(command@, arg_views(args@)) ==> call_requires(
                    bridge,
                    (code,),
                ),
        ensures
            exists|code: String, reply: HostReply|
                code@ == call_expression(command@, arg_views(args@)) && call_ensures(
                    bridge,
                    (code,),
                    reply,
                ) && inherit_view(res) == reply@.inherit_result(),
    {
        let code = command_expression(command, args);
        let reply = bridge(code);
        reply.inherit_result()
    }

    /// Runs `command` with `args` on the host, capturing its output: hands
    /// `bridge` the call expression and turns its reply into the status and
    /// output of the command, or into the host's error.
    pub fn run_command_capture<F: FnOnce(String) -> HostReply>(
        &self,
        command: &str,
        args: &[&str],
        bridge: F,
    ) -> (res: Result<(i32, String, String), String>)
        requires
            forall|code: String|
                code@ == call_expression(command@, arg_views(args@)) ==> call_requires(
                    bridge,
                    (code,),
                ),
        ensures
            exists|code: String, reply: HostReply|
                code@ == call_expression(command@, arg_views(args@)) && call_ensures(
                    bridge,
                    (code,),
                    reply,
                ) && capture_view(res) == reply@.capture_result(),
    {
        let code = command_expression(command, args);
        let reply = bridge(code);
        reply.capture_result()
    }
}

/// The message of the error for an image that could not be encoded, given
/// the encoder's own message.
pub open spec fn image_failure(cause: Seq<char>) -> Seq<char> {
    "Failed to show image: "@ + cause
}

/// The result of a read as mathematical values.
pub open spec fn read_view(res: Result<Vec<u8>, String>) -> Result<Seq<u8>, Seq<char>> {
    match res {
        Ok(bytes) => Ok(bytes@),
        Err(message) => Err(message@),
    }
}

/// A read directly after a write to the same path gives exactly what was
/// written.
pub proof fn lemma_read_after_write(state: BackendView, path: Seq<char>, contents: Seq<u8>)
    ensures
        state.write_file(path, contents).read_file(path) == Ok::<Seq<u8>, Seq<char>>(contents),
{
}

/// A write to one path leaves what every other path reads as.
pub proof fn lemma_write_keeps_other_paths(
    state: BackendView,
    path: Seq<char>,
    contents: Seq<u8>,
    other: Seq<char>,
)
    requires
        other != path,
    ensures
        state.write_file(path, contents).read_file(other) == state.read_file(other),
{
}

/// A read of a path that no write went to fails: it gives the error for a
/// path that holds no file, whatever was written to other paths.
pub proof fn lemma_read_never_written(writes: Seq<(Seq<char>, Seq<u8>)>, path: Seq<char>)
    requires
        forall|i: int| 0 <= i < writes.len() ==> (#[trigger] writes[i]).0 != path,
    ensures
        BackendView::empty().write_files(writes).read_file(path) == Err::<Seq<u8>, Seq<char>>(
            file_not_found(path),
        ),
    decreases writes.len(),
{
    if writes.len() > 0 {
        let before = writes.drop_last();
        assert forall|i: int| 0 <= i < before.len() implies (#[trigger] before[i]).0 != path by {
            assert(before[i] == writes[i]);
        }
        lemma_read_never_written(before, path);
        assert(writes.last() == writes[writes.len() - 1]);
    }
}

/// The message of the error for a read of a path that holds no file.
pub open spec fn file_not_found(path: Seq<char>) -> Seq<char> {
    "File not found: "@ + path
}

} // verus!
