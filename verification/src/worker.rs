//! The worker that serves the requests for debug information, one request
//! at a time. The worker reads nothing itself: before a request is served,
//! `needs` says what has to be read for it, and `work` is handed what was
//! read.

use std::sync::Arc;
use vstd::prelude::*;
use crate::disassembly::{decompile, is_disassembly_of, DecompiledSrc};
use crate::dwarf_reader::{as_read, read_units, units_of_file, DebugSections};
use crate::dwarf_records::{unit_views, UnitRecord};
use crate::line_scan::BreakableSrcLocation;
use crate::error::DebugError;
use crate::offline_debug_info::{
    analyse_units,
    discover_paths,
    discovered_paths,
    locations_of_units,
    optional_text,
    share,
    subprograms_of_units,
    texts,
    with_file,
    DebugInfoRequest,
    DebugInfoResponse,
    SrcFileDebugInfo,
    ThinOfflineDebugInfo,
};
use crate::src_file::{path_hash, table_upto, SrcFile};
use crate::subprograms::{subprogram_views, Subprogram};

verus! {

/// The worker's state: the executable as far as it was read, and what was
/// found in it so far.
pub struct OfflineDebugInfoWorker {
    /// The state of knowledge that the worker publishes.
    pub debug_info: ThinOfflineDebugInfo,
    /// Where the executable lies.
    pub exec_path: String,
    /// Where set, only source files under this directory are read without
    /// being asked for.
    pub auto_load_src_root_path: Option<String>,
    /// The bytes of the executable; empty until it was read.
    pub bin_data: Vec<u8>,
    /// The compilation units of the executable; empty until it was read.
    pub units: Vec<UnitRecord>,
}

/// What has to be read before a request can be served.
pub enum WorkNeed {
    /// Nothing.
    Nothing,
    /// The bytes of the executable at this path.
    Executable(String),
    /// The lines of the source file at this path.
    SourceText(String),
}

/// What was read for a request.
pub enum WorkInput {
    /// Nothing: nothing was needed, or it could not be read.
    Nothing,
    /// The bytes of the executable.
    Executable { bytes: Vec<u8> },
    /// The lines of a source file.
    SourceText(Vec<String>),
}

/// What serving a request brought about.
pub struct WorkOutput {
    /// Requests to put at the end of the worker's queue, in this order.
    pub requests: Vec<DebugInfoRequest>,
    /// Responses to publish, in this order.
    pub responses: Vec<DebugInfoResponse>,
    /// What went wrong, if something did: a file that could not be read, or
    /// debug information that could be read in part only.
    pub diagnostic: Option<DebugError>,
}

/// Whether one of the first `n` units is malformed.
pub open spec fn any_malformed(units: Seq<UnitRecord>, n: int) -> bool
    decreases n,
{
    if n <= 0 {
        false
    } else {
        units[n - 1].malformed || any_malformed(units, n - 1)
    }
}

/// Whether one of the units is malformed.
pub fn has_malformed(units: &Vec<UnitRecord>) -> (found: bool)
    ensures
        found == any_malformed(units@, units@.len() as int),
{
    let mut found = false;
    let mut i: usize = 0;
    while i < units.len()
        invariant
            i <= units@.len(),
            found == any_malformed(units@, i as int),
        decreases units@.len() - i,
    {
        if units[i].malformed {
            found = true;
        }
        i = i + 1;
    }
    found
}

/// Whether the requests ask, path for path, to read the source file and
/// analyse it afterwards.
pub open spec fn asks_to_read(requests: Seq<DebugInfoRequest>, paths: Seq<Seq<char>>) -> bool {
    &&& requests.len() == paths.len()
    &&& forall|i: int|
        0 <= i < requests.len() ==> match #[trigger] requests[i] {
            DebugInfoRequest::ReadSrc { path, queue_debug_info } => path@ == paths[i]
                && queue_debug_info,
            _ => false,
        }
}

/// Whether `copy` holds the same state of knowledge as `info`.
pub open spec fn same_knowledge(copy: ThinOfflineDebugInfo, info: ThinOfflineDebugInfo) -> bool {
    &&& copy.decompiled_src == info.decompiled_src
    &&& copy.src_file_info@ == info.src_file_info@
    &&& copy.all_subprograms == info.all_subprograms
}

/// Whether the responses are one, a state of knowledge equal to `info`.
pub open spec fn publishes(responses: Seq<DebugInfoResponse>, info: ThinOfflineDebugInfo) -> bool {
    &&& responses.len() == 1
    &&& responses[0] matches DebugInfoResponse::ThinInfo(copy)
    &&& same_knowledge(copy, info)
}

/// The texts of the lines of a file, where it has lines.
pub open spec fn line_texts(lines: Option<Vec<String>>) -> Option<Seq<Seq<char>>> {
    match lines {
        Some(lines) => Some(texts(lines@)),
        None => None,
    }
}

/// What serving a request to read the executable brings about.
pub open spec fn read_exec_outcome(
    before: OfflineDebugInfoWorker,
    after: OfflineDebugInfoWorker,
    input: WorkInput,
    output: WorkOutput,
) -> bool {
    &&& after.exec_path == before.exec_path
    &&& after.auto_load_src_root_path == before.auto_load_src_root_path
    &&& after.debug_info.src_file_info == before.debug_info.src_file_info
    &&& after.debug_info.all_subprograms == before.debug_info.all_subprograms
    &&& match input {
        WorkInput::Executable { bytes } => {
            &&& after.bin_data == bytes
            &&& unit_views(after.units@) == units_of_file(bytes@)
            &&& as_read(after.units@)
            &&& after.debug_info.decompiled_src is Some
            &&& is_disassembly_of(*after.debug_info.decompiled_src->0, bytes@)
            &&& asks_to_read(
                output.requests@,
                discovered_paths(
                    after.units@,
                    optional_text(before.auto_load_src_root_path),
                    after.units@.len() as int,
                ),
            )
            &&& publishes(output.responses@, after.debug_info)
            &&& output.diagnostic == (if any_malformed(after.units@, after.units@.len() as int) {
                Some(DebugError::Malformed)
            } else {
                None
            })
        },
        _ => after == before && output.requests@.len() == 0 && output.responses@.len() == 0
            && output.diagnostic == Some(DebugError::NotFound),
    }
}

/// What serving a request to read a source file brings about.
pub open spec fn read_src_outcome(
    path: String,
    queue_debug_info: bool,
    input: WorkInput,
    output: WorkOutput,
) -> bool {
    match input {
        WorkInput::SourceText(lines) => {
            &&& output.responses@.len() == 1
            &&& output.responses@[0] matches DebugInfoResponse::Src(file)
            &&& file.path@ == path@
            &&& file.lines == Some(lines)
            &&& file.line_to_addr@ == Map::<usize, u64>::empty()
            &&& file.addr_to_line@ == Map::<u64, usize>::empty()
            &&& if queue_debug_info {
                output.requests@.len() == 1 && output.requests@[0] == DebugInfoRequest::DebugInfo(
                    file,
                )
            } else {
                output.requests@.len() == 0
            }
            &&& output.diagnostic is None
        },
        _ => output.requests@.len() == 0 && output.responses@.len() == 0 && output.diagnostic
            == Some(DebugError::NotFound),
    }
}

/// What serving a request to analyse a source file brings about.
pub open spec fn debug_info_outcome(
    before: OfflineDebugInfoWorker,
    after: OfflineDebugInfoWorker,
    src: Arc<SrcFile>,
    output: WorkOutput,
) -> bool {
    &&& after.exec_path == before.exec_path
    &&& after.auto_load_src_root_path == before.auto_load_src_root_path
    &&& after.bin_data == before.bin_data
    &&& after.units == before.units
    &&& after.debug_info.decompiled_src == before.debug_info.decompiled_src
    &&& output.diagnostic is None
    &&& src.lines is None ==> {
        &&& after.debug_info == before.debug_info
        &&& output.responses@.len() == 0
        &&& asks_to_read(output.requests@, seq![src.path@])
    }
    &&& src.lines is Some ==> {
        let hash = path_hash(src.path@);
        let locations = locations_of_units(before.units@, src.path@, before.units@.len() as int);
        let subprograms = subprograms_of_units(
            before.units@,
            src.path@,
            hash,
            before.units@.len() as int,
        );
        &&& output.requests@.len() == 0
        &&& exists|info: Arc<SrcFileDebugInfo>|
            {
                &&& info.src_file_hash == hash
                &&& info.breakable_locations@ == locations
                &&& subprogram_views(info.subprograms@) == subprograms
                &&& after.debug_info.src_file_info@ == with_file(
                    before.debug_info.src_file_info@,
                    info,
                )
            }
        &&& subprogram_views(after.debug_info.all_subprograms@) == subprograms + subprogram_views(
            before.debug_info.all_subprograms@,
        )
        &&& output.responses@.len() == 2
        &&& output.responses@[0] matches DebugInfoResponse::DebugInfo(file)
        &&& file.path@ == src.path@
        &&& line_texts(file.lines) == line_texts(src.lines)
        &&& file.line_to_addr@ == table_upto(locations, locations.len() as int)
        &&& file.wf()
        &&& output.responses@[1] matches DebugInfoResponse::ThinInfo(copy)
        &&& same_knowledge(copy, after.debug_info)
    }
}

/// What serving a request brings about. A request to read the executable is
/// served at once. As long as the executable was not read, any other request
/// goes back to the end of the queue, unserved.
pub open spec fn work_outcome(
    before: OfflineDebugInfoWorker,
    after: OfflineDebugInfoWorker,
    request: DebugInfoRequest,
    input: WorkInput,
    output: WorkOutput,
) -> bool {
    match request {
        DebugInfoRequest::ReadExec(_) => read_exec_outcome(before, after, input, output),
        DebugInfoRequest::ReadSrc { path, queue_debug_info } => if before.is_ready() {
            after == before && read_src_outcome(path, queue_debug_info, input, output)
        } else {
            after == before && output.responses@.len() == 0 && output.requests@ == seq![request]
                && output.diagnostic is None
        },
        DebugInfoRequest::DebugInfo(src) => if before.is_ready() {
            debug_info_outcome(before, after, src, output)
        } else {
            after == before && output.responses@.len() == 0 && output.requests@ == seq![request]
                && output.diagnostic is None
        },
    }
}


impl OfflineDebugInfoWorker {
    /// The published state of knowledge has no file twice.
    pub open spec fn wf(&self) -> bool {
        self.debug_info.wf()
    }

    /// Whether the executable was read: its bytes are there, and so is its
    /// disassembly.
    pub open spec fn is_ready(&self) -> bool {
        self.bin_data@.len() > 0 && self.debug_info.decompiled_src is Some
    }

    /// A worker for the executable at `exec_path` that has read nothing yet.
    pub fn new(exec_path: String, auto_load_src_root_path: Option<String>) -> (worker: Self)
        ensures
            worker.exec_path == exec_path,
            worker.auto_load_src_root_path == auto_load_src_root_path,
            worker.bin_data@.len() == 0,
            worker.units@.len() == 0,
            worker.debug_info.decompiled_src is None,
            worker.debug_info.src_file_info@.len() == 0,
            worker.debug_info.all_subprograms@.len() == 0,
            worker.wf(),
            !worker.is_ready(),
    {
        OfflineDebugInfoWorker {
            debug_info: ThinOfflineDebugInfo::empty(),
            exec_path,
            auto_load_src_root_path,
            bin_data: Vec::new(),
            units: Vec::new(),
        }
    }

    /// Whether the executable was read.
    pub fn ready(&self) -> (ready: bool)
        ensures
            ready == self.is_ready(),
    {
        self.bin_data.len() > 0 && self.debug_info.decompiled_src.is_some()
    }

    /// Takes the bytes of the executable and the compilation units that were
    /// read out of them. Where `queue_files` is set, the answer asks to read
    /// and analyse each source file that the line programs refer to and that
    /// lies under the root, if one is set; else the answer is empty.
    pub fn gather_dwarf_info(
        &mut self,
        bytes: Vec<u8>,
        units: Vec<UnitRecord>,
        queue_files: bool,
    ) -> (requests: Vec<DebugInfoRequest>)
        ensures
            final(self).bin_data == bytes,
            final(self).units == units,
            final(self).debug_info == old(self).debug_info,
            final(self).exec_path == old(self).exec_path,
            final(self).auto_load_src_root_path == old(self).auto_load_src_root_path,
            queue_files ==> asks_to_read(
                requests@,
                discovered_paths(
                    units@,
                    optional_text(old(self).auto_load_src_root_path),
                    units@.len() as int,
                ),
            ),
            !queue_files ==> requests@.len() == 0,
    {
        self.bin_data = bytes;
        self.units = units;
        let mut requests: Vec<DebugInfoRequest> = Vec::new();
        if !queue_files {
            return requests;
        }
        let paths = discover_paths(&self.units, &self.auto_load_src_root_path);
        let mut i: usize = 0;
        while i < paths.len()
            invariant
                i <= paths@.len(),
                asks_to_read(requests@, texts(paths@).take(i as int)),
            decreases paths@.len() - i,
        {
            requests.push(
                DebugInfoRequest::ReadSrc { path: paths[i].clone(), queue_debug_info: true },
            );
            i = i + 1;
        }
        assert(texts(paths@).take(i as int) =~= texts(paths@));
        requests
    }

    /// The disassembly of an executable.
    pub fn decompile_src(bin_data: &Vec<u8>) -> (listing: Arc<DecompiledSrc>)
        ensures
            is_disassembly_of(*listing, bin_data@),
    {
        Arc::new(decompile(bin_data.as_slice()))
    }

    /// The breakable locations and the subprograms of a source file: those
    /// of each compilation unit that could be read, has a line program and
    /// was compiled in a directory whose text is how the file's path begins,
    /// unit after unit.
    pub fn generate_breakable_src_locations_and_subprograms(&self, src_file: &SrcFile) -> (found: (
        Vec<BreakableSrcLocation>,
        Vec<Subprogram>,
    ))
        ensures
            found.0@ == locations_of_units(self.units@, src_file.path@, self.units@.len() as int),
            subprogram_views(found.1@) == subprograms_of_units(
                self.units@,
                src_file.path@,
                path_hash(src_file.path@),
                self.units@.len() as int,
            ),
    {
        analyse_units(&self.units, src_file.path.as_str(), src_file.simple_hash())
    }

    /// What has to be read before `request` can be served: the executable
    /// for a request to read it; the file's lines for a request to read a
    /// source file, once the executable was read; else nothing.
    pub fn needs(&self, request: &DebugInfoRequest) -> (need: WorkNeed)
        ensures
            match *request {
                DebugInfoRequest::ReadExec(_) => need matches WorkNeed::Executable(path)
                    && path@ == self.exec_path@,
                DebugInfoRequest::ReadSrc { path, .. } => if self.is_ready() {
                    need matches WorkNeed::SourceText(text) && text@ == path@
                } else {
                    need is Nothing
                },
                DebugInfoRequest::DebugInfo(_) => need is Nothing,
            },
    {
        match request {
            DebugInfoRequest::ReadExec(_) => WorkNeed::Executable(self.exec_path.clone()),
            DebugInfoRequest::ReadSrc { path, .. } => {
                if self.ready() {
                    WorkNeed::SourceText(path.clone())
                } else {
                    WorkNeed::Nothing
                }
            },
            DebugInfoRequest::DebugInfo(_) => WorkNeed::Nothing,
        }
    }

    /// Serves a request to read the executable: reads the compilation units
    /// out of its bytes, asks for its source files, disassembles it and
    /// publishes the new state of knowledge; units that could not be read to
    /// their end are told of. Where the executable could not be read, nothing
    /// happens but that this is told.
    pub fn read_exec(&mut self, input: WorkInput) -> (output: WorkOutput)
        requires
            old(self).wf(),
        ensures
            final(self).wf(),
            read_exec_outcome(*old(self), *final(self), input, output),
    {
        match input {
            WorkInput::Executable { bytes } => {
                let sections = DebugSections::load(bytes.as_slice());
                let units = read_units(&sections);
                let requests = self.gather_dwarf_info(bytes, units, true);
                self.debug_info.decompiled_src = Some(Self::decompile_src(&self.bin_data));
                let mut responses: Vec<DebugInfoResponse> = Vec::new();
                responses.push(DebugInfoResponse::ThinInfo(self.debug_info.snapshot()));
                let diagnostic = if has_malformed(&self.units) {
                    Some(DebugError::Malformed)
                } else {
                    None
                };
                WorkOutput { requests, responses, diagnostic }
            },
            _ => WorkOutput {
                requests: Vec::new(),
                responses: Vec::new(),
                diagnostic: Some(DebugError::NotFound),
            },
        }
    }

    /// Serves a request to read a source file: publishes the file with the
    /// lines that were read and, where `queue_debug_info` is set, asks to
    /// analyse it. Where no lines were read, nothing happens but that this is
    /// told.
    pub fn read_src(&self, path: String, queue_debug_info: bool, input: WorkInput) -> (output:
        WorkOutput)
        ensures
            read_src_outcome(path, queue_debug_info, input, output),
    {
        let mut requests: Vec<DebugInfoRequest> = Vec::new();
        let mut responses: Vec<DebugInfoResponse> = Vec::new();
        let mut diagnostic = Some(DebugError::NotFound);
        if let WorkInput::SourceText(lines) = input {
            let file = Arc::new(SrcFile::new(path, Some(lines)));
            responses.push(DebugInfoResponse::Src(share(&file)));
            if queue_debug_info {
                requests.push(DebugInfoRequest::DebugInfo(file));
            }
            diagnostic = None;
        }
        WorkOutput { requests, responses, diagnostic }
    }

    /// Serves a request to analyse a source file. A file whose lines were
    /// not read is asked for again. Else the file's breakable locations and
    /// subprograms are found and put into the state of knowledge, and the
    /// file, now with its line table, and the new state are published.
    pub fn debug_info(&mut self, src: Arc<SrcFile>) -> (output: WorkOutput)
        requires
            old(self).wf(),
        ensures
            final(self).wf(),
            debug_info_outcome(*old(self), *final(self), src, output),
    {
        let mut requests: Vec<DebugInfoRequest> = Vec::new();
        let mut responses: Vec<DebugInfoResponse> = Vec::new();
        let lines = match &src.lines {
            Some(lines) => lines.clone(),
            None => {
                requests.push(
                    DebugInfoRequest::ReadSrc { path: src.path.clone(), queue_debug_info: true },
                );
                return WorkOutput { requests, responses, diagnostic: None };
            },
        };
        assert(texts(lines@) =~= texts(src.lines->0@));
        let found = self.generate_breakable_src_locations_and_subprograms(&src);
        let locations = found.0;
        let subprograms = found.1;
        let hash = src.simple_hash();
        let mut file = SrcFile::new(src.path.clone(), Some(lines));
        file.index_locations(&locations);
        self.debug_info.record_file(hash, locations, subprograms);
        responses.push(DebugInfoResponse::DebugInfo(Arc::new(file)));
        responses.push(DebugInfoResponse::ThinInfo(self.debug_info.snapshot()));
        WorkOutput { requests, responses, diagnostic: None }
    }

    /// Serves one request. A request to read the executable is served at
    /// once. As long as the executable was not read, any other request goes
    /// back to the end of the queue, unserved.
    pub fn work(&mut self, request: DebugInfoRequest, input: WorkInput) -> (output: WorkOutput)
        requires
            old(self).wf(),
        ensures
            final(self).wf(),
            work_outcome(*old(self), *final(self), request, input, output),
    {
        match request {
            DebugInfoRequest::ReadExec(_) => self.read_exec(input),
            other => {
                if !self.ready() {
                    let mut requests: Vec<DebugInfoRequest> = Vec::new();
                    requests.push(other);
                    WorkOutput { requests, responses: Vec::new(), diagnostic: None }
                } else {
                    match other {
                        DebugInfoRequest::ReadSrc { path, queue_debug_info } => self.read_src(
                            path,
                            queue_debug_info,
                            input,
                        ),
                        DebugInfoRequest::DebugInfo(src) => self.debug_info(src),
                        DebugInfoRequest::ReadExec(_) => WorkOutput {
                            requests: Vec::new(),
                            responses: Vec::new(),
                            diagnostic: None,
                        },
                    }
                }
            },
        }
    }
}

} // verus!
