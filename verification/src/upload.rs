use vstd::prelude::*;
use vstd::string::StringExecFns;
use crate::assets::{AssetList, AssetView, filename_known};

verus! {

/// The status of a successful request.
pub const STATUS_OK: u16 = 200;

/// The status of a request the client got wrong.
pub const STATUS_BAD_REQUEST: u16 = 400;

/// The status of a request the server failed.
pub const STATUS_INTERNAL_SERVER_ERROR: u16 = 500;

/// Where an upload stands. The file name travels with the phases that need it.
pub enum UploadPhase<S> {
    /// The asset directory is being created.
    CreatingDir,
    /// The next field of the form is awaited.
    AwaitingField,
    /// The data of the field that names this file is being read.
    ReadingData(S),
    /// The file is being created.
    CreatingFile(S),
    /// The data is being written to the file.
    Writing(S),
    /// The response has been given.
    Finished,
}

/// What happened since the last step of an upload.
pub enum UploadEvent<S> {
    DirCreated,
    DirFailed,
    /// The form has no further field, or reading it failed.
    NoMoreFields,
    /// The next field carries no file name.
    UnnamedField,
    /// The next field carries this file name.
    NamedField(S),
    DataRead,
    DataFailed,
    FileCreated,
    FileFailed,
    Written,
    WriteFailed,
}

/// What an upload asks to be done next.
pub enum UploadAction<S> {
    /// Create this directory, and its parents, unless it exists.
    CreateDir(S),
    /// Read the next field of the form.
    NextField,
    /// Read the data of the current field.
    ReadData,
    /// Create the file of this name in this directory.
    CreateFile { dir: S, file_name: S },
    /// Write the data that was read to the file.
    WriteData,
    /// Answer the request.
    Respond { status: u16, body: S },
}

impl<S: View> View for UploadPhase<S> {
    type V = UploadPhase<S::V>;

    open spec fn view(&self) -> UploadPhase<S::V> {
        match self {
            UploadPhase::CreatingDir => UploadPhase::CreatingDir,
            UploadPhase::AwaitingField => UploadPhase::AwaitingField,
            UploadPhase::ReadingData(n) => UploadPhase::ReadingData(n@),
            UploadPhase::CreatingFile(n) => UploadPhase::CreatingFile(n@),
            UploadPhase::Writing(n) => UploadPhase::Writing(n@),
            UploadPhase::Finished => UploadPhase::Finished,
        }
    }
}

impl<S: View> View for UploadEvent<S> {
    type V = UploadEvent<S::V>;

    open spec fn view(&self) -> UploadEvent<S::V> {
        match self {
            UploadEvent::DirCreated => UploadEvent::DirCreated,
            UploadEvent::DirFailed => UploadEvent::DirFailed,
            UploadEvent::NoMoreFields => UploadEvent::NoMoreFields,
            UploadEvent::UnnamedField => UploadEvent::UnnamedField,
            UploadEvent::NamedField(n) => UploadEvent::NamedField(n@),
            UploadEvent::DataRead => UploadEvent::DataRead,
            UploadEvent::DataFailed => UploadEvent::DataFailed,
            UploadEvent::FileCreated => UploadEvent::FileCreated,
            UploadEvent::FileFailed => UploadEvent::FileFailed,
            UploadEvent::Written => UploadEvent::Written,
            UploadEvent::WriteFailed => UploadEvent::WriteFailed,
        }
    }
}

impl<S: View> View for UploadAction<S> {
    type V = UploadAction<S::V>;

    open spec fn view(&self) -> UploadAction<S::V> {
        match self {
            UploadAction::CreateDir(d) => UploadAction::CreateDir(d@),
            UploadAction::NextField => UploadAction::NextField,
            UploadAction::ReadData => UploadAction::ReadData,
            UploadAction::CreateFile { dir, file_name } => UploadAction::CreateFile { dir: dir@, file_name: file_name@ },
            UploadAction::WriteData => UploadAction::WriteData,
            UploadAction::Respond { status, body } => UploadAction::Respond { status: *status, body: body@ },
        }
    }
}

/// Which events can happen in a phase.
pub open spec fn upload_accepts<S>(phase: UploadPhase<S>, event: UploadEvent<S>) -> bool {
    match phase {
        UploadPhase::CreatingDir => event is DirCreated || event is DirFailed,
        UploadPhase::AwaitingField => event is NoMoreFields || event is UnnamedField || event is NamedField,
        UploadPhase::ReadingData(_) => event is DataRead || event is DataFailed,
        UploadPhase::CreatingFile(_) => event is FileCreated || event is FileFailed,
        UploadPhase::Writing(_) => event is Written || event is WriteFailed,
        UploadPhase::Finished => false,
    }
}

/// The answer to an upload whose file name is already taken.
pub open spec fn exists_body(name: Seq<char>) -> Seq<char> {
    "File "@ + name + " already exists"@
}

/// The answer to a successful upload.
pub open spec fn success_body(name: Seq<char>) -> Seq<char> {
    "File uploaded successfully as "@ + name
}

pub open spec fn respond(status: u16, body: Seq<char>) -> (UploadPhase<Seq<char>>, UploadAction<Seq<char>>) {
    (UploadPhase::Finished, UploadAction::Respond { status, body })
}

/// One step of an upload into `dir`, where `assets` are the known assets.
/// Fields without a file name are skipped; the first named field is the
/// upload; a name that an asset already has is refused; any failure to read
/// or save ends the upload with an error answer.
pub open spec fn upload_next(
    dir: Seq<char>,
    phase: UploadPhase<Seq<char>>,
    event: UploadEvent<Seq<char>>,
    assets: Seq<AssetView>,
) -> (UploadPhase<Seq<char>>, UploadAction<Seq<char>>) {
    match (phase, event) {
        (UploadPhase::CreatingDir, UploadEvent::DirCreated) => (UploadPhase::AwaitingField, UploadAction::NextField),
        (UploadPhase::CreatingDir, _) => respond(STATUS_INTERNAL_SERVER_ERROR, "Failed to create upload directory"@),
        (UploadPhase::AwaitingField, UploadEvent::NoMoreFields) => respond(STATUS_BAD_REQUEST, "No file provided"@),
        (UploadPhase::AwaitingField, UploadEvent::NamedField(name)) => if filename_known(assets, name) {
            respond(STATUS_BAD_REQUEST, exists_body(name))
        } else {
            (UploadPhase::ReadingData(name), UploadAction::ReadData)
        },
        (UploadPhase::AwaitingField, _) => (UploadPhase::AwaitingField, UploadAction::NextField),
        (UploadPhase::ReadingData(name), UploadEvent::DataRead) => (
            UploadPhase::CreatingFile(name),
            UploadAction::CreateFile { dir, file_name: name },
        ),
        (UploadPhase::ReadingData(_), _) => respond(STATUS_BAD_REQUEST, "Failed to read file data"@),
        (UploadPhase::CreatingFile(name), UploadEvent::FileCreated) => (UploadPhase::Writing(name), UploadAction::WriteData),
        (UploadPhase::CreatingFile(_), _) => respond(STATUS_INTERNAL_SERVER_ERROR, "Failed to save file"@),
        (UploadPhase::Writing(name), UploadEvent::Written) => respond(STATUS_OK, success_body(name)),
        (UploadPhase::Writing(_), _) => respond(STATUS_INTERNAL_SERVER_ERROR, "Failed to save file"@),
        (UploadPhase::Finished, _) => (UploadPhase::Finished, UploadAction::NextField),
    }
}

fn response(status: u16, body: &str) -> (r: (UploadPhase<String>, UploadAction<String>))
    ensures
        (r.0@, r.1@) == respond(status, body@),
{
    (UploadPhase::Finished, UploadAction::Respond { status, body: String::from_str(body) })
}

/// One upload request.
pub struct Upload {
    dir: String,
    phase: UploadPhase<String>,
}

impl Upload {
    /// The directory the upload is saved to.
    pub closed spec fn dir(&self) -> Seq<char> {
        self.dir@
    }

    /// Where the upload stands.
    pub closed spec fn phase(&self) -> UploadPhase<Seq<char>> {
        self.phase@
    }

    /// Starts an upload into `dir`: the directory is created first.
    pub fn start(dir: &String) -> (r: (Upload, UploadAction<String>))
        ensures
            r.0.dir() == dir@,
            r.0.phase() == UploadPhase::<Seq<char>>::CreatingDir,
            r.1@ == UploadAction::<Seq<char>>::CreateDir(dir@),
    {
        (Upload { dir: dir.clone(), phase: UploadPhase::CreatingDir }, UploadAction::CreateDir(dir.clone()))
    }

    /// Whether `event` can happen now.
    pub fn accepts(&self, event: &UploadEvent<String>) -> (b: bool)
        ensures
            b == upload_accepts(self.phase(), event@),
    {
        match (&self.phase, event) {
            (UploadPhase::CreatingDir, UploadEvent::DirCreated) => true,
            (UploadPhase::CreatingDir, UploadEvent::DirFailed) => true,
            (UploadPhase::AwaitingField, UploadEvent::NoMoreFields) => true,
            (UploadPhase::AwaitingField, UploadEvent::UnnamedField) => true,
            (UploadPhase::AwaitingField, UploadEvent::NamedField(_)) => true,
            (UploadPhase::ReadingData(_), UploadEvent::DataRead) => true,
            (UploadPhase::ReadingData(_), UploadEvent::DataFailed) => true,
            (UploadPhase::CreatingFile(_), UploadEvent::FileCreated) => true,
            (UploadPhase::CreatingFile(_), UploadEvent::FileFailed) => true,
            (UploadPhase::Writing(_), UploadEvent::Written) => true,
            (UploadPhase::Writing(_), UploadEvent::WriteFailed) => true,
            _ => false,
        }
    }

    /// Takes in what happened and says what to do next.
    pub fn step(&mut self, event: UploadEvent<String>, assets: &AssetList) -> (a: UploadAction<String>)
        requires
            upload_accepts(old(self).phase(), event@),
        ensures
            final(self).dir() == old(self).dir(),
            (final(self).phase(), a@) == upload_next(old(self).dir(), old(self).phase(), event@, assets@),
    {
        let mut phase = UploadPhase::Finished;
        std::mem::swap(&mut phase, &mut self.phase);
        let (next, action) = match (phase, event) {
            (UploadPhase::CreatingDir, UploadEvent::DirCreated) => (UploadPhase::AwaitingField, UploadAction::NextField),
            (UploadPhase::CreatingDir, _) => response(STATUS_INTERNAL_SERVER_ERROR, "Failed to create upload directory"),
            (UploadPhase::AwaitingField, UploadEvent::NoMoreFields) => response(STATUS_BAD_REQUEST, "No file provided"),
            (UploadPhase::AwaitingField, UploadEvent::NamedField(name)) => {
                if assets.contains_filename(&name) {
                    let mut body = String::from_str("File ");
                    body.append(name.as_str());
                    body.append(" already exists");
                    (UploadPhase::Finished, UploadAction::Respond { status: STATUS_BAD_REQUEST, body })
                } else {
                    (UploadPhase::ReadingData(name), UploadAction::ReadData)
                }
            },
            (UploadPhase::AwaitingField, _) => (UploadPhase::AwaitingField, UploadAction::NextField),
            (UploadPhase::ReadingData(name), UploadEvent::DataRead) => {
                let file_name = name.clone();
                (UploadPhase::CreatingFile(name), UploadAction::CreateFile { dir: self.dir.clone(), file_name })
            },
            (UploadPhase::ReadingData(_), _) => response(STATUS_BAD_REQUEST, "Failed to read file data"),
            (UploadPhase::CreatingFile(name), UploadEvent::FileCreated) => (UploadPhase::Writing(name), UploadAction::WriteData),
            (UploadPhase::CreatingFile(_), _) => response(STATUS_INTERNAL_SERVER_ERROR, "Failed to save file"),
            (UploadPhase::Writing(name), UploadEvent::Written) => {
                let mut body = String::from_str("File uploaded successfully as ");
                body.append(name.as_str());
                (UploadPhase::Finished, UploadAction::Respond { status: STATUS_OK, body })
            },
            (UploadPhase::Writing(_), _) => response(STATUS_INTERNAL_SERVER_ERROR, "Failed to save file"),
            (UploadPhase::Finished, _) => (UploadPhase::Finished, UploadAction::NextField),
        };
        self.phase = next;
        action
    }
}

/// A file name that an asset already has is refused, with a client error
/// that names it, and nothing is read or written.
pub proof fn lemma_known_name_refused(dir: Seq<char>, name: Seq<char>, assets: Seq<AssetView>)
    requires
        filename_known(assets, name),
    ensures
        upload_next(dir, UploadPhase::AwaitingField, UploadEvent::NamedField(name), assets)
            == respond(STATUS_BAD_REQUEST, exists_body(name)),
{
}

/// An upload answers exactly once: a step answers if and only if it ends the
/// upload, and an ended upload takes in no further event.
pub proof fn lemma_answers_once(
    dir: Seq<char>,
    phase: UploadPhase<Seq<char>>,
    event: UploadEvent<Seq<char>>,
    assets: Seq<AssetView>,
)
    requires
        upload_accepts(phase, event),
    ensures
        (upload_next(dir, phase, event, assets).0 is Finished) <==> (upload_next(dir, phase, event, assets).1 is Respond),
        forall|e: UploadEvent<Seq<char>>| upload_next(dir, phase, event, assets).0 is Finished ==> !upload_accepts(
            upload_next(dir, phase, event, assets).0,
            e,
        ),
{
}

/// Success is answered only once the data has been written, and it names the
/// file.
pub proof fn lemma_success_only_after_write(
    dir: Seq<char>,
    phase: UploadPhase<Seq<char>>,
    event: UploadEvent<Seq<char>>,
    assets: Seq<AssetView>,
)
    requires
        upload_accepts(phase, event),
        upload_next(dir, phase, event, assets).1 matches UploadAction::Respond { status, .. } && status == STATUS_OK,
    ensures
        phase is Writing,
        event is Written,
        upload_next(dir, phase, event, assets).1 == (UploadAction::Respond {
            status: STATUS_OK,
            body: success_body(phase->Writing_0),
        }),
{
}


/// What each step of an upload into `dir` does, for every file name and
/// every set of known assets: a name is refused exactly when some asset has
/// that very name; the file is created under the name that was sent, in
/// `dir`; each failure gets its own status and message.
pub proof fn lemma_upload_steps(dir: Seq<char>, name: Seq<char>, assets: Seq<AssetView>)
    ensures
        upload_next(dir, UploadPhase::CreatingDir, UploadEvent::DirCreated, assets)
            == (UploadPhase::<Seq<char>>::AwaitingField, UploadAction::<Seq<char>>::NextField),
        upload_next(dir, UploadPhase::CreatingDir, UploadEvent::DirFailed, assets) == (
            UploadPhase::<Seq<char>>::Finished,
            UploadAction::Respond { status: 500, body: "Failed to create upload directory"@ },
        ),
        upload_next(dir, UploadPhase::AwaitingField, UploadEvent::NoMoreFields, assets) == (
            UploadPhase::<Seq<char>>::Finished,
            UploadAction::Respond { status: 400, body: "No file provided"@ },
        ),
        upload_next(dir, UploadPhase::AwaitingField, UploadEvent::UnnamedField, assets)
            == (UploadPhase::<Seq<char>>::AwaitingField, UploadAction::<Seq<char>>::NextField),
        (exists|i: int| 0 <= i < assets.len() && #[trigger] assets[i].1 == name) ==> upload_next(
            dir,
            UploadPhase::AwaitingField,
            UploadEvent::NamedField(name),
            assets,
        ) == (
            UploadPhase::<Seq<char>>::Finished,
            UploadAction::Respond { status: 400, body: "File "@ + name + " already exists"@ },
        ),
        (forall|i: int| 0 <= i < assets.len() ==> #[trigger] assets[i].1 != name) ==> upload_next(
            dir,
            UploadPhase::AwaitingField,
            UploadEvent::NamedField(name),
            assets,
        ) == (UploadPhase::ReadingData(name), UploadAction::<Seq<char>>::ReadData),
        upload_next(dir, UploadPhase::ReadingData(name), UploadEvent::DataRead, assets)
            == (UploadPhase::CreatingFile(name), UploadAction::CreateFile { dir, file_name: name }),
        upload_next(dir, UploadPhase::ReadingData(name), UploadEvent::DataFailed, assets) == (
            UploadPhase::<Seq<char>>::Finished,
            UploadAction::Respond { status: 400, body: "Failed to read file data"@ },
        ),
        upload_next(dir, UploadPhase::CreatingFile(name), UploadEvent::FileCreated, assets)
            == (UploadPhase::Writing(name), UploadAction::<Seq<char>>::WriteData),
        upload_next(dir, UploadPhase::CreatingFile(name), UploadEvent::FileFailed, assets) == (
            UploadPhase::<Seq<char>>::Finished,
            UploadAction::Respond { status: 500, body: "Failed to save file"@ },
        ),
        upload_next(dir, UploadPhase::Writing(name), UploadEvent::Written, assets) == (
            UploadPhase::<Seq<char>>::Finished,
            UploadAction::Respond { status: 200, body: "File uploaded successfully as "@ + name },
        ),
        upload_next(dir, UploadPhase::Writing(name), UploadEvent::WriteFailed, assets) == (
            UploadPhase::<Seq<char>>::Finished,
            UploadAction::Respond { status: 500, body: "Failed to save file"@ },
        ),
{
}

} // verus!
