//! Project layout: metadata, the required structure of a project folder,
//! and where imported assets go.
//!
//! Whatever depends on the disk is given as a list of the paths known to
//! exist (`present`); the callers probe the paths these functions name.
use vstd::prelude::*;
use crate::ecs::SceneManager;
use crate::paths::{file_name, file_name_of, join_path, join_paths, relative_text, to_relative_string};
use crate::text::{joined, joined3, occurs_at, owned, text_eq, text_rfind, texts, texts_contain};

verus! {

/// The text of a std `str::to_lowercase` result.
pub uninterp spec fn unicode_lowercase(s: Seq<char>) -> Seq<char>;

/// `str::to_lowercase` from std (Unicode lower case).
#[verifier::external_body]
pub(crate) fn lowercase_text(s: &str) -> (r: String)
    ensures
        r@ == unicode_lowercase(s@),
{
    s.to_lowercase()
}

/// Project metadata, saved as the project file.
#[derive(Debug)]
pub struct ProjectMetadata {
    pub project_name: String,
    pub version: String,
    pub project_path: String,
    pub default_scene: String,
    pub active_scene_id: Option<u128>,
}

/// A project as loaded: its metadata and its scenes.
#[derive(Debug)]
pub struct LoadedProject {
    pub metadata: ProjectMetadata,
    pub scene_manager: SceneManager,
}

/// The kinds of assets a project imports.
#[derive(Clone, Copy, Debug, PartialEq, Eq, Structural)]
pub enum AssetType {
    Image,
    Sound,
    Font,
    Script,
}

/// The file extensions accepted for each kind of asset.
pub open spec fn extensions(t: AssetType) -> Seq<Seq<char>> {
    match t {
        AssetType::Image => seq!["png"@, "jpg"@, "jpeg"@, "gif"@],
        AssetType::Sound => seq!["wav"@, "mp3"@, "ogg"@],
        AssetType::Font => seq!["ttf"@, "otf"@],
        AssetType::Script => seq!["lua"@],
    }
}

/// The folder (under the project root) that each kind of asset goes to.
pub open spec fn asset_folder(t: AssetType) -> Seq<char> {
    match t {
        AssetType::Image => "assets/images"@,
        AssetType::Sound => "assets/sounds"@,
        AssetType::Font => "assets/fonts"@,
        AssetType::Script => "assets/scripts"@,
    }
}

/// The message given for a file of the wrong kind.
pub open spec fn wrong_type_message(t: AssetType) -> Seq<char> {
    match t {
        AssetType::Image => "Invalid file type for Image. Expected one of: [\"png\", \"jpg\", \"jpeg\", \"gif\"]"@,
        AssetType::Sound => "Invalid file type for Sound. Expected one of: [\"wav\", \"mp3\", \"ogg\"]"@,
        AssetType::Font => "Invalid file type for Font. Expected one of: [\"ttf\", \"otf\"]"@,
        AssetType::Script => "Invalid file type for Script. Expected one of: [\"lua\"]"@,
    }
}

impl AssetType {
    /// The file extensions accepted for this kind of asset.
    pub fn valid_extensions(&self) -> (r: Vec<&'static str>)
        ensures
            r@.map_values(|e: &str| e@) == extensions(*self),
    {
        let r = match self {
            AssetType::Image => vec!["png", "jpg", "jpeg", "gif"],
            AssetType::Sound => vec!["wav", "mp3", "ogg"],
            AssetType::Font => vec!["ttf", "otf"],
            AssetType::Script => vec!["lua"],
        };
        assert(r@.map_values(|e: &str| e@) =~= extensions(*self));
        r
    }
}

/// The extension of a file name: what follows its last `.`, unless the name
/// has no `.` or only a leading one.
pub open spec fn extension_of(name: Seq<char>) -> Option<Seq<char>> {
    if crate::text::occurs_in(name, "."@) {
        let i = crate::paths::last_occurrence(name, "."@);
        if i == 0 {
            None
        } else {
            Some(name.skip(i + 1))
        }
    } else {
        None
    }
}

/// The file name's extension (see `extension_of`).
pub(crate) fn extension(name: &str) -> (r: Option<String>)
    ensures
        match r {
            Some(e) => extension_of(name@) == Some(e@),
            None => extension_of(name@) is None,
        },
{
    let n = name.unicode_len();
    match text_rfind(name, ".") {
        Some(i) => {
            proof {
                let c = crate::paths::last_occurrence(name@, "."@);
                assert(occurs_at(name@, "."@, c));
                if c < i {
                    assert(!occurs_at(name@, "."@, i as int));
                }
                if c > i {
                    assert(!occurs_at(name@, "."@, c));
                }
            }
            if i == 0 {
                None
            } else {
                proof {
                    reveal_strlit(".");
                }
                let e = name.substring_char(i + 1, n);
                assert(e@ =~= name@.skip(i + 1));
                Some(owned(e))
            }
        },
        None => None,
    }
}

/// Where an asset is imported to: its path, and that path relative to the
/// project root (the form returned to the caller).
pub struct ImportPlan {
    pub target_path: String,
    pub relative_path: String,
}

/// The outcome of importing `asset` of kind `t` into `project`, when the
/// paths in `present` exist: the target and relative paths, or the message.
pub open spec fn import_outcome(
    project: Seq<char>,
    asset: Seq<char>,
    t: AssetType,
    present: Seq<Seq<char>>,
) -> Result<(Seq<char>, Seq<char>), Seq<char>> {
    match file_name(asset) {
        None => Err("File has no extension"@),
        Some(name) => match extension_of(name) {
            None => Err("File has no extension"@),
            Some(ext) => if !extensions(t).contains(unicode_lowercase(ext)) {
                Err(wrong_type_message(t))
            } else {
                let target = join_path(join_path(project, asset_folder(t)), name);
                if present.contains(target) {
                    Err("Asset '"@ + name + "' already exists in the project. Please rename the file or remove the existing one."@)
                } else {
                    match relative_text(target, project) {
                        Some(rel) => Ok((target, rel)),
                        None => Err("Failed to get relative path: prefix not found"@),
                    }
                }
            },
        },
    }
}

impl AssetType {
    /// Is `ext` one of this kind's extensions?
    fn accepts(&self, ext: &str) -> (r: bool)
        ensures
            r == extensions(*self).contains(ext@),
    {
        let valid = self.valid_extensions();
        let ghost ev = valid@.map_values(|e: &str| e@);
        let mut i: usize = 0;
        while i < valid.len()
            invariant
                i <= valid.len(),
                ev == valid@.map_values(|e: &str| e@),
                ev == extensions(*self),
                forall|j: int| 0 <= j < i ==> ev[j] != ext@,
            decreases valid.len() - i,
        {
            if text_eq(valid[i], ext) {
                assert(ev[i as int] == ext@);
                return true;
            }
            i = i + 1;
        }
        false
    }

    fn folder(&self) -> (r: &'static str)
        ensures
            r@ == asset_folder(*self),
    {
        match self {
            AssetType::Image => "assets/images",
            AssetType::Sound => "assets/sounds",
            AssetType::Font => "assets/fonts",
            AssetType::Script => "assets/scripts",
        }
    }

    fn wrong_type_message(&self) -> (r: &'static str)
        ensures
            r@ == wrong_type_message(*self),
    {
        match self {
            AssetType::Image => "Invalid file type for Image. Expected one of: [\"png\", \"jpg\", \"jpeg\", \"gif\"]",
            AssetType::Sound => "Invalid file type for Sound. Expected one of: [\"wav\", \"mp3\", \"ogg\"]",
            AssetType::Font => "Invalid file type for Font. Expected one of: [\"ttf\", \"otf\"]",
            AssetType::Script => "Invalid file type for Script. Expected one of: [\"lua\"]",
        }
    }
}

/// The required folders of a project, under its root.
pub open spec fn required_folders() -> Seq<Seq<char>> {
    seq!["assets/images"@, "assets/sounds"@, "assets/fonts"@, "assets/scripts"@, "scenes"@, "src"@]
}

/// Each kind of asset is imported into its own required folder of the
/// project (images into `assets/images`, sounds into `assets/sounds`, fonts
/// into `assets/fonts`, scripts into `assets/scripts`), kinds never share a
/// folder, and a planned import's target is the file's name in that folder.
pub proof fn law_assets_go_to_their_own_folder(
    t: AssetType,
    u: AssetType,
    project: Seq<char>,
    asset: Seq<char>,
    present: Seq<Seq<char>>,
)
    ensures
        asset_folder(AssetType::Image) == "assets/images"@ && asset_folder(AssetType::Image) == required_folders()[0],
        asset_folder(AssetType::Sound) == "assets/sounds"@ && asset_folder(AssetType::Sound) == required_folders()[1],
        asset_folder(AssetType::Font) == "assets/fonts"@ && asset_folder(AssetType::Font) == required_folders()[2],
        asset_folder(AssetType::Script) == "assets/scripts"@ && asset_folder(AssetType::Script) == required_folders()[3],
        t != u ==> asset_folder(t) != asset_folder(u),
        import_outcome(project, asset, t, present) matches Ok((target, _)) ==> file_name(asset) matches Some(name)
            && target == join_path(join_path(project, asset_folder(t)), name),
        import_outcome(project, asset, AssetType::Sound, present) matches Ok((target, _)) ==> file_name(asset) matches Some(name)
            && target == join_path(join_path(project, "assets/sounds"@), name),
{
    reveal_strlit("assets/images");
    reveal_strlit("assets/sounds");
    reveal_strlit("assets/fonts");
    reveal_strlit("assets/scripts");
    if t != u {
        let a = asset_folder(t);
        let b = asset_folder(u);
        assert(a.len() > 8 && b.len() > 8);
        if a.len() == b.len() {
            assert(a[7] != b[7] || a[8] != b[8]);
        }
    }
}

/// The file extensions each kind of asset accepts (in lower case): images
/// png, jpg, jpeg and gif; sounds wav, mp3 and ogg; fonts ttf and otf;
/// scripts lua. No extension belongs to two kinds.
pub proof fn law_asset_extensions(t: AssetType, u: AssetType, ext: Seq<char>)
    ensures
        extensions(AssetType::Image) =~= seq!["png"@, "jpg"@, "jpeg"@, "gif"@],
        extensions(AssetType::Sound) =~= seq!["wav"@, "mp3"@, "ogg"@],
        extensions(AssetType::Font) =~= seq!["ttf"@, "otf"@],
        extensions(AssetType::Script) =~= seq!["lua"@],
        t != u && extensions(t).contains(ext) ==> !extensions(u).contains(ext),
{
    reveal_strlit("png");
    reveal_strlit("jpg");
    reveal_strlit("jpeg");
    reveal_strlit("gif");
    reveal_strlit("wav");
    reveal_strlit("mp3");
    reveal_strlit("ogg");
    reveal_strlit("ttf");
    reveal_strlit("otf");
    reveal_strlit("lua");
    if t != u && extensions(t).contains(ext) && extensions(u).contains(ext) {
        let i = choose|i: int| 0 <= i < extensions(t).len() && extensions(t)[i] == ext;
        let j = choose|j: int| 0 <= j < extensions(u).len() && extensions(u)[j] == ext;
        assert(extensions(t)[i][0] == extensions(u)[j][0]);
        assert(extensions(t)[i].len() >= 3);
        assert(extensions(t)[i][1] == extensions(u)[j][1]);
        assert(extensions(t)[i][2] == extensions(u)[j][2]);
    }
}

/// The project file of a project folder.
pub open spec fn project_file(project: Seq<char>) -> Seq<char> {
    join_path(project, "project.epm"@)
}

/// The scene file of a project folder.
pub open spec fn scene_file(project: Seq<char>) -> Seq<char> {
    join_path(join_path(project, "scenes"@), "scene_manager.json"@)
}

/// Why a project folder's structure is invalid, if it is: the project file,
/// then each required folder in order, then the scene file must exist.
pub open spec fn structure_problem(project: Seq<char>, present: Seq<Seq<char>>) -> Option<Seq<char>> {
    if !present.contains(project_file(project)) {
        Some("Not a valid project - missing project.epm file"@)
    } else if exists|i: int| 0 <= i < 6 && !present.contains(join_path(project, #[trigger] required_folders()[i])) {
        let i = choose|i: int| 0 <= i < 6 && !present.contains(join_path(project, #[trigger] required_folders()[i]))
            && forall|j: int| 0 <= j < i ==> present.contains(join_path(project, #[trigger] required_folders()[j]));
        Some("Required folder '"@ + required_folders()[i] + "' is missing"@)
    } else if !present.contains(scene_file(project)) {
        Some("Scene manager file is missing"@)
    } else {
        None
    }
}

/// The project-wide state: the path of the open project.
pub struct ProjectManager {
    project_path: Option<String>,
}

impl ProjectManager {
    /// No project open.
    pub fn new() -> (r: Self)
        ensures
            r.project_path() is None,
    {
        ProjectManager { project_path: None }
    }

    pub closed spec fn project_path(&self) -> Option<Seq<char>> {
        match self.project_path {
            Some(p) => Some(p@),
            None => None,
        }
    }

    /// Records the path of the open project.
    pub fn set_project_path(&mut self, path: String)
        ensures
            final(self).project_path() == Some(path@),
    {
        self.project_path = Some(path);
    }

    /// The path of the open project, if any.
    pub fn get_project_path(&self) -> (r: Option<String>)
        ensures
            match r {
                Some(p) => self.project_path() == Some(p@),
                None => self.project_path() is None,
            },
    {
        match &self.project_path {
            Some(p) => Some(p.clone()),
            None => None,
        }
    }

    /// The project file of a project folder.
    pub fn project_file_path(path: &str) -> (r: String)
        ensures
            r@ == project_file(path@),
    {
        join_paths(path, "project.epm")
    }

    /// A folder is a project when it holds the project file.
    pub fn is_valid_project_directory(path: &str, present: &Vec<String>) -> (r: bool)
        ensures
            r == texts(present@).contains(project_file(path@)),
    {
        let f = Self::project_file_path(path);
        texts_contain(present, f.as_str())
    }

    /// The paths whose existence decides whether a project's structure is
    /// valid: the project file, the required folders, the scene file.
    pub fn structure_paths(project_path: &str) -> (r: Vec<String>)
        ensures
            texts(r@) == seq![project_file(project_path@)] + required_folders().map_values(
                |f: Seq<char>| join_path(project_path@, f),
            ) + seq![scene_file(project_path@)],
    {
        let mut r: Vec<String> = Vec::new();
        r.push(Self::project_file_path(project_path));
        r.push(join_paths(project_path, "assets/images"));
        r.push(join_paths(project_path, "assets/sounds"));
        r.push(join_paths(project_path, "assets/fonts"));
        r.push(join_paths(project_path, "assets/scripts"));
        r.push(join_paths(project_path, "scenes"));
        r.push(join_paths(project_path, "src"));
        r.push(crate::scene_io::scene_file_path(project_path));
        assert(texts(r@) =~= seq![project_file(project_path@)] + required_folders().map_values(
            |f: Seq<char>| join_path(project_path@, f),
        ) + seq![scene_file(project_path@)]);
        r
    }

    /// Checks the project file, then the required folders in order, then the
    /// scene file; the first one missing is reported.
    pub fn validate_project_structure(project_path: &str, present: &Vec<String>) -> (r: Result<(), String>)
        ensures
            match r {
                Ok(()) => structure_problem(project_path@, texts(present@)) is None,
                Err(e) => structure_problem(project_path@, texts(present@)) == Some(e@),
            },
    {
        let ghost pv = texts(present@);
        let ghost proj = project_path@;
        if !texts_contain(present, Self::project_file_path(project_path).as_str()) {
            return Err(owned("Not a valid project - missing project.epm file"));
        }
        let folders = vec!["assets/images", "assets/sounds", "assets/fonts", "assets/scripts", "scenes", "src"];
        assert(folders@.map_values(|f: &str| f@) =~= required_folders());
        let mut i: usize = 0;
        while i < folders.len()
            invariant
                i <= folders.len(),
                folders@.len() == 6,
                pv == texts(present@),
                proj == project_path@,
                pv.contains(project_file(proj)),
                forall|k: int| 0 <= k < 6 ==> (#[trigger] folders@[k])@ == required_folders()[k],
                forall|j: int| 0 <= j < i ==> pv.contains(join_path(proj, #[trigger] required_folders()[j])),
            decreases folders.len() - i,
        {
            let folder_path = join_paths(project_path, folders[i]);
            if !texts_contain(present, folder_path.as_str()) {
                proof {
                    assert(!pv.contains(join_path(proj, required_folders()[i as int])));
                    let c = choose|c: int| 0 <= c < 6 && !pv.contains(join_path(proj, #[trigger] required_folders()[c]))
                        && forall|j: int| 0 <= j < c ==> pv.contains(join_path(proj, #[trigger] required_folders()[j]));
                    if c < i {
                        assert(pv.contains(join_path(proj, required_folders()[c])));
                    }
                    if c > i {
                        assert(pv.contains(join_path(proj, required_folders()[i as int])));
                    }
                }
                return Err(joined3("Required folder '", folders[i], "' is missing"));
            }
            i = i + 1;
        }
        assert(!exists|k: int| 0 <= k < 6 && !pv.contains(join_path(proj, #[trigger] required_folders()[k])));
        if !texts_contain(present, crate::scene_io::scene_file_path(project_path).as_str()) {
            return Err(owned("Scene manager file is missing"));
        }
        Ok(())
    }

    /// The metadata of a new project at `project_path`, named after its last
    /// path component.
    pub fn new_project_metadata(project_path: &str) -> (r: Result<ProjectMetadata, String>)
        ensures
            match r {
                Ok(m) => file_name(project_path@) == Some(m.project_name@) && m.version@ == "1.0.0"@
                    && m.project_path@ == project_path@ && m.default_scene@ == "main.scene"@
                    && m.active_scene_id is None,
                Err(e) => file_name(project_path@) is None && e@ == "Invalid project path"@,
            },
    {
        match file_name_of(project_path) {
            Some(name) => Ok(ProjectMetadata {
                project_name: name,
                version: owned("1.0.0"),
                project_path: owned(project_path),
                default_scene: owned("main.scene"),
                active_scene_id: None,
            }),
            None => Err(owned("Invalid project path")),
        }
    }

    /// Metadata as loaded from `project_path`: the stored path is replaced by
    /// the place the project was opened from.
    pub fn opened_at(metadata: ProjectMetadata, project_path: &str) -> (r: ProjectMetadata)
        ensures
            r.project_path@ == project_path@,
            r.project_name == metadata.project_name,
            r.version == metadata.version,
            r.default_scene == metadata.default_scene,
            r.active_scene_id == metadata.active_scene_id,
    {
        ProjectMetadata { project_path: owned(project_path), ..metadata }
    }

    /// Whether a project folder can be opened: it must hold the project file
    /// and have a valid structure.
    pub fn check_openable(project_path: &str, present: &Vec<String>) -> (r: Result<(), String>)
        ensures
            match r {
                Ok(()) => structure_problem(project_path@, texts(present@)) is None,
                Err(e) => if !texts(present@).contains(project_file(project_path@)) {
                    e@ == "Not a valid project - missing project.epm file"@
                } else {
                    structure_problem(project_path@, texts(present@)) is Some && e@ == "Project structure is invalid"@
                },
            },
    {
        if !Self::is_valid_project_directory(project_path, present) {
            return Err(owned("Not a valid project - missing project.epm file"));
        }
        if Self::validate_project_structure(project_path, present).is_err() {
            return Err(owned("Project structure is invalid"));
        }
        Ok(())
    }

    /// Decides where an asset is imported to, or why it cannot be: it must
    /// have an extension of its kind (in any case) and not exist yet in the
    /// kind's folder.
    pub fn plan_import(project_path: &str, asset_path: &str, asset_type: AssetType, present: &Vec<String>) -> (r: Result<ImportPlan, String>)
        ensures
            match r {
                Ok(p) => import_outcome(project_path@, asset_path@, asset_type, texts(present@))
                    == Ok::<(Seq<char>, Seq<char>), Seq<char>>((p.target_path@, p.relative_path@)),
                Err(e) => import_outcome(project_path@, asset_path@, asset_type, texts(present@))
                    == Err::<(Seq<char>, Seq<char>), Seq<char>>(e@),
            },
    {
        let name = match file_name_of(asset_path) {
            Some(n) => n,
            None => return Err(owned("File has no extension")),
        };
        let ext = match extension(name.as_str()) {
            Some(e) => e,
            None => return Err(owned("File has no extension")),
        };
        let lower = lowercase_text(ext.as_str());
        if !asset_type.accepts(lower.as_str()) {
            return Err(owned(asset_type.wrong_type_message()));
        }
        let dir = join_paths(project_path, asset_type.folder());
        let target = join_paths(dir.as_str(), name.as_str());
        if texts_contain(present, target.as_str()) {
            return Err(duplicate_message(name.as_str()));
        }
        match to_relative_string(target.as_str(), project_path) {
            Some(rel) => Ok(ImportPlan { target_path: target, relative_path: rel }),
            None => Err(owned("Failed to get relative path: prefix not found")),
        }
    }
}

/// The message for an asset that already exists in the project.
fn duplicate_message(name: &str) -> (r: String)
    ensures
        r@ == "Asset '"@ + name@ + "' already exists in the project. Please rename the file or remove the existing one."@,
{
    let mut m = joined3("Asset '", name, "' already exists in the project.");
    m.append(" Please rename the file or remove the existing one.");
    proof {
        reveal_strlit("' already exists in the project.");
        reveal_strlit(" Please rename the file or remove the existing one.");
        reveal_strlit("' already exists in the project. Please rename the file or remove the existing one.");
        assert("' already exists in the project."@ + " Please rename the file or remove the existing one."@
            =~= "' already exists in the project. Please rename the file or remove the existing one."@);
        assert(m@ =~= "Asset '"@ + name@ + "' already exists in the project. Please rename the file or remove the existing one."@);
    }
    m
}

/// The older file-management helpers.
pub struct FileManagement;

impl FileManagement {
    /// A project path is valid when it is an existing folder that holds a
    /// `project.json` file.
    pub fn is_valid_project_path(project_path: &str, present_dirs: &Vec<String>, present: &Vec<String>) -> (r: bool)
        ensures
            r == (texts(present_dirs@).contains(project_path@)
                && texts(present@).contains(project_path@ + "/project.json"@)),
    {
        let f = joined(project_path, "/project.json");
        texts_contain(present_dirs, project_path) && texts_contain(present, f.as_str())
    }
}

} // verus!
