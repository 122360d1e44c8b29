//! One task file: the operations it defines and the place it was found at.

use vstd::prelude::*;

use crate::discovery::{find_here, here_path};
use crate::document::{
    entry_views, read_document, yaml_document, RawDocument, RawDocumentView, RawEntry, RawEntryView,
};
use crate::failure::{Failure, FailureView};
use crate::location::{parent_of, path_parent};
use crate::steps::{
    expected_shapes, step_at, steps_of, texts, RawItem, RawItemView, Step, StepView, Steps,
};

verus! {

/// The name of a task, as the caller gave it. Any name is accepted: a file
/// that does not define it has no steps for it.
#[derive(Debug, Clone, PartialEq, Eq)]
pub struct Operation(pub String);

impl View for Operation {
    type V = Seq<char>;

    open spec fn view(&self) -> Seq<char> {
        self.0@
    }
}

/// What came of looking for a file and reading it.
#[derive(Debug, Clone, PartialEq, Eq)]
pub enum Found {
    /// There is no such file.
    Missing,
    /// The file is there but reading it failed; `cause` is what the system
    /// said.
    Unreadable { cause: String },
    /// The bytes of the file.
    Contents { bytes: Vec<u8> },
}

/// A `Found` by the views of its parts.
pub enum FoundView {
    Missing,
    Unreadable { cause: Seq<char> },
    Contents { bytes: Seq<u8> },
}

impl View for Found {
    type V = FoundView;

    open spec fn view(&self) -> FoundView {
        match *self {
            Found::Missing => FoundView::Missing,
            Found::Unreadable { cause } => FoundView::Unreadable { cause: cause@ },
            Found::Contents { bytes } => FoundView::Contents { bytes: bytes@ },
        }
    }
}

/// A location together with what came of reading the file there.
#[derive(Debug, Clone, PartialEq, Eq)]
pub struct FoundFile {
    pub path: String,
    pub found: Found,
}

/// A `FoundFile` by the views of its parts.
pub struct FoundFileView {
    pub path: Seq<char>,
    pub found: FoundView,
}

impl View for FoundFile {
    type V = FoundFileView;

    open spec fn view(&self) -> FoundFileView {
        FoundFileView { path: self.path@, found: self.found@ }
    }
}

/// The views of a sequence of files.
pub open spec fn file_views(files: Seq<FoundFile>) -> Seq<FoundFileView> {
    files.map_values(|file: FoundFile| file@)
}

/// The failure of the first file that does not make a `Leaf`, if any.
pub open spec fn first_failure(files: Seq<FoundFileView>) -> Option<FailureView>
    decreases files.len(),
{
    if files.len() == 0 {
        None
    } else {
        match first_failure(files.drop_last()) {
            Some(failure) => Some(failure),
            None => match leaf_of(files.last().path, files.last().found) {
                Ok(_) => None,
                Err(failure) => Some(failure),
            },
        }
    }
}

/// All the files as leaves, in their order; the first failure among them;
/// or, where there is no file at all, the failure that says so.
pub open spec fn all_leaves_of(files: Seq<FoundFileView>) -> Result<Seq<LeafView>, FailureView> {
    match first_failure(files) {
        Some(failure) => Err(failure),
        None => if files.len() == 0 {
            Err(FailureView::NoFilesFoundAnywhere)
        } else {
            Ok(Seq::new(files.len(), |i: int| leaf_of(files[i].path, files[i].found)->Ok_0))
        },
    }
}

/// The first step of running an operation of a file: the steps that the
/// file has for it start in the directory that holds the file. A location
/// without a parent ends the run before any step.
pub open spec fn run_step(leaf: LeafView, operation: Seq<char>) -> StepView {
    match path_parent(leaf.path) {
        None => StepView::Finish(Err(FailureView::NoParentDirectory)),
        Some(cwd) => step_at(resolved(leaf.custom, operation), cwd, 0),
    }
}

/// The steps of one operation of a file.
#[derive(Debug)]
struct Entry {
    name: String,
    steps: Steps,
}

/// One task file. No operation name occurs twice in it.
#[derive(Debug)]
pub struct Leaf {
    custom: Vec<Entry>,
    path: String,
}

/// What a `Leaf` stands for: the steps of each operation that the file
/// defines, and the file's location.
pub struct LeafView {
    pub custom: Map<Seq<char>, Seq<Seq<char>>>,
    pub path: Seq<char>,
}

/// What is said of a key that is no text.
pub open spec fn key_fault() -> Seq<char> {
    "expected every key to be a string"@
}

/// What is said of a document that is no mapping at the top level.
pub open spec fn document_fault() -> Seq<char> {
    "expected a mapping from operation names to steps"@
}

/// What is wrong with one entry, if anything: its key is no text, or its
/// value has neither accepted shape (said with the key in front).
pub open spec fn entry_fault(entry: RawEntryView) -> Option<Seq<char>> {
    match entry.key {
        RawItemView::Other => Some(key_fault()),
        RawItemView::Text(name) => if steps_of(entry.value).is_some() {
            None
        } else {
            Some(name + ": "@ + expected_shapes())
        },
    }
}

/// What is wrong with the first entry that has a fault, if any has one.
pub open spec fn first_fault(entries: Seq<RawEntryView>) -> Option<Seq<char>>
    decreases entries.len(),
{
    if entries.len() == 0 {
        None
    } else {
        match first_fault(entries.drop_last()) {
            Some(detail) => Some(detail),
            None => entry_fault(entries.last()),
        }
    }
}

/// The steps of each operation in entries without fault. Where a key
/// occurs again, the later entry replaces the earlier.
pub open spec fn table_of(entries: Seq<RawEntryView>) -> Map<Seq<char>, Seq<Seq<char>>>
    decreases entries.len(),
{
    if entries.len() == 0 {
        Map::empty()
    } else {
        table_of(entries.drop_last()).insert(
            entries.last().key->Text_0,
            steps_of(entries.last().value).unwrap(),
        )
    }
}

/// The operations of a document, with their steps, or the failure that the
/// document amounts to. A document is accepted when the reader took it, its
/// top level is a mapping, every key is text and every value a text or a
/// sequence of texts.
pub open spec fn decode(document: Result<RawDocumentView, Seq<char>>) -> Result<
    Map<Seq<char>, Seq<Seq<char>>>,
    FailureView,
> {
    match document {
        Err(message) => Err(FailureView::ParseFailure { detail: message }),
        Ok(RawDocumentView::Other) => Err(FailureView::ParseFailure { detail: document_fault() }),
        Ok(RawDocumentView::Table(entries)) => match first_fault(entries) {
            Some(detail) => Err(FailureView::ParseFailure { detail }),
            None => Ok(table_of(entries)),
        },
    }
}

/// The file found at `path`, of what reading it gave. An empty location
/// names no file, so nothing is found there whatever was read.
pub open spec fn leaf_of(path: Seq<char>, found: FoundView) -> Result<LeafView, FailureView> {
    if path.len() == 0 {
        Err(FailureView::NoFileFoundHere)
    } else {
        match found {
            FoundView::Missing => Err(FailureView::NoFileFoundHere),
            FoundView::Unreadable { cause } => Err(FailureView::Unreadable { cause }),
            FoundView::Contents { bytes } => match decode(yaml_document(bytes)) {
                Ok(custom) => Ok(LeafView { custom, path }),
                Err(failure) => Err(failure),
            },
        }
    }
}

/// The steps that a file has for an operation: those it defines under that
/// name, or none.
pub open spec fn resolved(custom: Map<Seq<char>, Seq<Seq<char>>>, operation: Seq<char>) -> Seq<
    Seq<char>,
> {
    if custom.dom().contains(operation) {
        custom[operation]
    } else {
        Seq::empty()
    }
}

/// Whether a file offers an operation: it defines it with at least one step.
pub open spec fn offers(custom: Map<Seq<char>, Seq<Seq<char>>>, operation: Seq<char>) -> bool {
    custom.dom().contains(operation) && custom[operation].len() > 0
}

spec fn distinct(custom: Seq<Entry>) -> bool {
    forall|i: int, j: int|
        0 <= i < j < custom.len() ==> (#[trigger] custom[i]).name@ != (#[trigger] custom[j]).name@
}

spec fn defines(custom: Seq<Entry>, name: Seq<char>) -> bool {
    exists|i: int| 0 <= i < custom.len() && (#[trigger] custom[i]).name@ == name
}

spec fn index_of(custom: Seq<Entry>, name: Seq<char>) -> int {
    choose|i: int| 0 <= i < custom.len() && (#[trigger] custom[i]).name@ == name
}

spec fn table(custom: Seq<Entry>) -> Map<Seq<char>, Seq<Seq<char>>> {
    Map::new(
        |name: Seq<char>| defines(custom, name),
        |name: Seq<char>| custom[index_of(custom, name)].steps@,
    )
}

proof fn lemma_table_at(custom: Seq<Entry>, i: int)
    requires
        distinct(custom),
        0 <= i < custom.len(),
    ensures
        table(custom).dom().contains(custom[i].name@),
        table(custom)[custom[i].name@] == custom[i].steps@,
{
    let name = custom[i].name@;
    assert(defines(custom, name));
    let j = index_of(custom, name);
    assert(0 <= j < custom.len() && custom[j].name@ == name);
    assert(j == i);
}

proof fn lemma_table_update(custom: Seq<Entry>, i: int, entry: Entry)
    requires
        distinct(custom),
        0 <= i < custom.len(),
        custom[i].name@ == entry.name@,
    ensures
        distinct(custom.update(i, entry)),
        table(custom.update(i, entry)) == table(custom).insert(entry.name@, entry.steps@),
{
    let after = custom.update(i, entry);
    assert(distinct(after)) by {
        assert forall|a: int, b: int| 0 <= a < b < after.len() implies (#[trigger] after[a]).name@
            != (#[trigger] after[b]).name@ by {
            assert(after[a].name@ == custom[a].name@);
            assert(after[b].name@ == custom[b].name@);
        }
    }
    let wanted = table(custom).insert(entry.name@, entry.steps@);
    assert forall|name: Seq<char>| table(after).dom().contains(name) <==> wanted.dom().contains(
        name,
    ) by {
        if defines(after, name) {
            let j = index_of(after, name);
            assert(custom[j].name@ == after[j].name@);
        }
        if defines(custom, name) {
            let j = index_of(custom, name);
            assert(after[j].name@ == custom[j].name@);
        }
        if name == entry.name@ {
            assert(after[i].name@ == name);
        }
    }
    assert forall|name: Seq<char>| table(after).dom().contains(name) implies table(after)[name]
        == wanted[name] by {
        let j = index_of(after, name);
        assert(0 <= j < after.len() && after[j].name@ == name);
        lemma_table_at(after, j);
        if j != i {
            assert(after[j] == custom[j]);
            lemma_table_at(custom, j);
        }
    }
    assert(table(after) =~= wanted);
}

proof fn lemma_table_push(custom: Seq<Entry>, entry: Entry)
    requires
        distinct(custom),
        !defines(custom, entry.name@),
    ensures
        distinct(custom.push(entry)),
        table(custom.push(entry)) == table(custom).insert(entry.name@, entry.steps@),
{
    let after = custom.push(entry);
    assert(distinct(after)) by {
        assert forall|a: int, b: int| 0 <= a < b < after.len() implies (#[trigger] after[a]).name@
            != (#[trigger] after[b]).name@ by {
            assert(after[a] == custom[a]);
            if b < custom.len() {
                assert(after[b] == custom[b]);
            }
        }
    }
    let wanted = table(custom).insert(entry.name@, entry.steps@);
    assert forall|name: Seq<char>| table(after).dom().contains(name) <==> wanted.dom().contains(
        name,
    ) by {
        if defines(after, name) {
            let j = index_of(after, name);
            if j < custom.len() {
                assert(custom[j].name@ == name);
            }
        }
        if defines(custom, name) {
            let j = index_of(custom, name);
            assert(after[j].name@ == name);
        }
        if name == entry.name@ {
            assert(after[custom.len() as int].name@ == name);
        }
    }
    assert forall|name: Seq<char>| table(after).dom().contains(name) implies table(after)[name]
        == wanted[name] by {
        let j = index_of(after, name);
        assert(0 <= j < after.len() && after[j].name@ == name);
        lemma_table_at(after, j);
        if j < custom.len() {
            assert(after[j] == custom[j]);
            lemma_table_at(custom, j);
        }
    }
    assert(table(after) =~= wanted);
}

spec fn offered_before(custom: Seq<Entry>, k: int, name: Seq<char>) -> bool {
    exists|e: int|
        0 <= e < k && (#[trigger] custom[e]).name@ == name && custom[e].steps@.len() > 0
}

proof fn lemma_offered_next(custom: Seq<Entry>, k: int)
    requires
        0 <= k < custom.len(),
    ensures
        forall|name: Seq<char>|
            #[trigger] offered_before(custom, k + 1, name) <==> offered_before(custom, k, name) || (
            custom[k].name@ == name && custom[k].steps@.len() > 0),
{
    assert forall|name: Seq<char>|
        #[trigger] offered_before(custom, k + 1, name) <==> offered_before(custom, k, name) || (
        custom[k].name@ == name && custom[k].steps@.len() > 0) by {
        if offered_before(custom, k, name) {
            let e = choose|e: int|
                0 <= e < k && (#[trigger] custom[e]).name@ == name && custom[e].steps@.len() > 0;
            assert(0 <= e < k + 1 && custom[e].name@ == name);
        }
        if custom[k].name@ == name && custom[k].steps@.len() > 0 {
            assert(0 <= k < k + 1 && custom[k].name@ == name);
        }
    }
}

proof fn lemma_offered_all(custom: Seq<Entry>)
    requires
        distinct(custom),
    ensures
        forall|name: Seq<char>|
            #[trigger] offered_before(custom, custom.len() as int, name) <==> offers(
                table(custom),
                name,
            ),
{
    assert forall|name: Seq<char>|
        #[trigger] offered_before(custom, custom.len() as int, name) <==> offers(
            table(custom),
            name,
        ) by {
        if offered_before(custom, custom.len() as int, name) {
            let e = choose|e: int|
                0 <= e < custom.len() && (#[trigger] custom[e]).name@ == name
                    && custom[e].steps@.len() > 0;
            lemma_table_at(custom, e);
        }
        if offers(table(custom), name) {
            let e = index_of(custom, name);
            assert(0 <= e < custom.len() && custom[e].name@ == name);
            lemma_table_at(custom, e);
        }
    }
}

/// A sequence without duplicates keeps none when something new is added,
/// and then holds what it held and the new item.
proof fn lemma_push_keeps(before: Seq<Seq<char>>, added: Seq<char>)
    requires
        before.no_duplicates(),
        !before.contains(added),
    ensures
        before.push(added).no_duplicates(),
        forall|name: Seq<char>|
            #[trigger] before.push(added).contains(name) <==> before.contains(name) || name
                == added,
{
    let after = before.push(added);
    assert forall|i: int, j: int|
        0 <= i < after.len() && 0 <= j < after.len() && i != j implies after[i] != after[j] by {
        if i < before.len() {
            assert(before.contains(after[i]));
        }
        if j < before.len() {
            assert(before.contains(after[j]));
        }
    }
    assert forall|name: Seq<char>| #[trigger]
        after.contains(name) <==> before.contains(name) || name == added by {
        if before.contains(name) {
            let i = choose|i: int| 0 <= i < before.len() && before[i] == name;
            assert(after[i] == name);
        }
        if name == added {
            assert(after[before.len() as int] == name);
        }
        if after.contains(name) {
            let i = choose|i: int| 0 <= i < after.len() && after[i] == name;
            if i < before.len() {
                assert(before[i] == name);
            }
        }
    }
}

/// Where an operation stands among the entries, if it does.
fn position(custom: &Vec<Entry>, name: &String) -> (found: Option<usize>)
    ensures
        match found {
            Some(i) => i < custom.len() && custom[i as int].name@ == name@,
            None => !defines(custom@, name@),
        },
{
    let mut i: usize = 0;
    while i < custom.len()
        invariant
            i <= custom.len(),
            forall|j: int| 0 <= j < i ==> (#[trigger] custom[j]).name@ != name@,
        decreases custom.len() - i,
    {
        if custom[i].name == *name {
            return Some(i);
        }
        i += 1;
    }
    None
}

/// Sets the steps of an operation, in place of those it had.
fn put(custom: &mut Vec<Entry>, name: String, steps: Steps)
    requires
        distinct(old(custom)@),
    ensures
        distinct(final(custom)@),
        table(final(custom)@) == table(old(custom)@).insert(name@, steps@),
{
    let entry = Entry { name, steps };
    match position(custom, &entry.name) {
        Some(i) => {
            proof {
                lemma_table_update(custom@, i as int, entry);
            }
            custom.set(i, entry);
        },
        None => {
            proof {
                lemma_table_push(custom@, entry);
            }
            custom.push(entry);
        },
    }
}

impl View for Leaf {
    type V = LeafView;

    closed spec fn view(&self) -> LeafView {
        LeafView { custom: table(self.custom@), path: self.path@ }
    }
}

impl Leaf {
    #[verifier::type_invariant]
    spec fn names_distinct(&self) -> bool {
        distinct(self.custom@)
    }

    /// Makes a file, not yet found anywhere, of a decoded document: the
    /// entries of its top-level mapping become the operations, in their
    /// order, a later entry replacing an earlier one with the same key. The
    /// first entry whose key is no text, or whose value is neither a text
    /// nor a sequence of texts, makes the whole document a failure.
    pub fn from_document(document: RawDocument) -> (result: Result<Leaf, Failure>)
        ensures
            match result {
                Ok(leaf) => decode(Ok(document@)) == Ok::<_, FailureView>(leaf@.custom)
                    && leaf@.path == Seq::<char>::empty(),
                Err(failure) => decode(Ok(document@)) == Err::<Map<Seq<char>, Seq<Seq<char>>>, _>(
                    failure@,
                ),
            },
    {
        let entries = match document {
            RawDocument::Table(entries) => entries,
            RawDocument::Other => {
                return Err(
                    Failure::ParseFailure {
                        detail: "expected a mapping from operation names to steps".to_owned(),
                    },
                );
            },
        };
        let ghost views = entry_views(entries@);
        let mut custom: Vec<Entry> = Vec::new();
        assert(table(custom@) =~= table_of(views.take(0)));
        let mut i: usize = 0;
        while i < entries.len()
            invariant
                document@ == RawDocumentView::Table(views),
                views == entry_views(entries@),
                i <= entries.len(),
                distinct(custom@),
                first_fault(views.take(i as int)).is_none(),
                table(custom@) == table_of(views.take(i as int)),
            decreases entries.len() - i,
        {
            proof {
                assert(views.take(i + 1).drop_last() =~= views.take(i as int));
                assert(views.take(i + 1).last() == entries@[i as int]@);
                lemma_fault_stays(views, i + 1);
            }
            let entry = &entries[i];
            match &entry.key {
                RawItem::Other => {
                    return Err(
                        Failure::ParseFailure { detail: "expected every key to be a string".to_owned() },
                    );
                },
                RawItem::Text(name) => match Steps::parse(&entry.value) {
                    Ok(steps) => {
                        put(&mut custom, name.clone(), steps);
                    },
                    Err(_) => {
                        let detail = name.clone().concat(": ").concat(
                            "expected either single string or sequence of strings",
                        );
                        return Err(Failure::ParseFailure { detail });
                    },
                },
            }
            i += 1;
        }
        assert(views.take(i as int) =~= views);
        Ok(Leaf { custom, path: String::new() })
    }

    /// Decodes the bytes of a task file into a file that is not yet found
    /// anywhere.
    pub fn from_yaml(source: &[u8]) -> (result: Result<Leaf, Failure>)
        ensures
            match result {
                Ok(leaf) => decode(yaml_document(source@)) == Ok::<_, FailureView>(leaf@.custom)
                    && leaf@.path == Seq::<char>::empty(),
                Err(failure) => decode(yaml_document(source@)) == Err::<
                    Map<Seq<char>, Seq<Seq<char>>>,
                    _,
                >(failure@),
            },
    {
        match read_document(source) {
            Ok(document) => Leaf::from_document(document),
            Err(message) => Err(Failure::ParseFailure { detail: message }),
        }
    }

    /// Makes the file found at `path` of what reading it gave: a missing
    /// file and an unreadable one are failures of their own, and bytes are
    /// decoded. On success the file knows its location, which is never
    /// empty: at an empty location no file is found.
    pub fn from_file(path: String, found: &Found) -> (result: Result<Leaf, Failure>)
        ensures
            match result {
                Ok(leaf) => leaf_of(path@, found@) == Ok::<_, FailureView>(leaf@),
                Err(failure) => leaf_of(path@, found@) == Err::<LeafView, _>(failure@),
            },
            result matches Ok(leaf) ==> leaf@.path == path@ && leaf@.path.len() > 0,
    {
        if path.as_str().is_empty() {
            return Err(Failure::NoFileFoundHere);
        }
        match found {
            Found::Missing => Err(Failure::NoFileFoundHere),
            Found::Unreadable { cause } => Err(Failure::Unreadable { cause: cause.clone() }),
            Found::Contents { bytes } => match Leaf::from_yaml(bytes.as_slice()) {
                Ok(leaf) => {
                    proof {
                        use_type_invariant(&leaf);
                    }
                    Ok(Leaf { custom: leaf.custom, path })
                },
                Err(failure) => Err(failure),
            },
        }
    }

    /// The file of the current directory, of what reading it gave.
    pub fn here(found: &Found) -> (result: Result<Leaf, Failure>)
        ensures
            match result {
                Ok(leaf) => leaf_of(here_path(), found@) == Ok::<_, FailureView>(leaf@),
                Err(failure) => leaf_of(here_path(), found@) == Err::<LeafView, _>(failure@),
            },
            result matches Ok(leaf) ==> leaf@.path == here_path(),
    {
        Leaf::from_file(find_here(), found)
    }

    /// All the files that a walk selected, of what reading each gave. The
    /// first file that fails makes the whole a failure, and so does a walk
    /// that selected nothing.
    pub fn all_leaves(files: &Vec<FoundFile>) -> (result: Result<Vec<Leaf>, Failure>)
        ensures
            match result {
                Ok(leaves) => all_leaves_of(file_views(files@)) == Ok::<_, FailureView>(
                    leaves@.map_values(|leaf: Leaf| leaf@),
                ),
                Err(failure) => all_leaves_of(file_views(files@)) == Err::<Seq<LeafView>, _>(
                    failure@,
                ),
            },
    {
        let ghost views = file_views(files@);
        let mut leaves: Vec<Leaf> = Vec::new();
        let mut i: usize = 0;
        while i < files.len()
            invariant
                views == file_views(files@),
                i <= files.len(),
                leaves.len() == i,
                first_failure(views.take(i as int)).is_none(),
                forall|j: int|
                    0 <= j < i ==> leaf_of(views[j].path, views[j].found) == Ok::<_, FailureView>(
                        (#[trigger] leaves[j])@,
                    ),
            decreases files.len() - i,
        {
            proof {
                assert(views.take(i + 1).drop_last() =~= views.take(i as int));
                assert(views.take(i + 1).last() == files@[i as int]@);
                lemma_failure_stays(views, i + 1);
            }
            match Leaf::from_file(files[i].path.clone(), &files[i].found) {
                Ok(leaf) => {
                    leaves.push(leaf);
                },
                Err(failure) => {
                    return Err(failure);
                },
            }
            i += 1;
        }
        assert(views.take(i as int) =~= views);
        if leaves.is_empty() {
            return Err(Failure::NoFilesFoundAnywhere);
        }
        assert(leaves@.map_values(|leaf: Leaf| leaf@) =~= Seq::new(
            views.len(),
            |i: int| leaf_of(views[i].path, views[i].found)->Ok_0,
        ));
        Ok(leaves)
    }

    /// Where the file was found.
    pub fn path(&self) -> (path: String)
        ensures
            path@ == self@.path,
    {
        self.path.clone()
    }

    /// The steps that the file has for an operation: those it defines under
    /// that name, or none. It never fails.
    pub fn resolve(&self, operation: &Operation) -> (steps: Steps)
        ensures
            steps@ == resolved(self@.custom, operation@),
            !self@.custom.dom().contains(operation@) ==> steps@.len() == 0,
    {
        proof {
            use_type_invariant(self);
        }
        match position(&self.custom, &operation.0) {
            Some(i) => {
                proof {
                    lemma_table_at(self.custom@, i as int);
                }
                self.custom[i].steps.duplicate()
            },
            None => Steps::default(),
        }
    }

    /// The operations that the file offers, each once: those it defines
    /// with at least one step.
    pub fn operations(&self) -> (names: Vec<String>)
        ensures
            texts(names@).no_duplicates(),
            forall|name: Seq<char>| #[trigger]
                texts(names@).contains(name) <==> offers(self@.custom, name),
    {
        proof {
            use_type_invariant(self);
        }
        let mut names: Vec<String> = Vec::new();
        let mut k: usize = 0;
        proof {
            assert forall|name: Seq<char>| texts(names@).contains(name) <==> offered_before(
                self.custom@,
                0,
                name,
            ) by {}
        }
        while k < self.custom.len()
            invariant
                k <= self.custom.len(),
                distinct(self.custom@),
                texts(names@).no_duplicates(),
                forall|name: Seq<char>|
                    texts(names@).contains(name) <==> offered_before(self.custom@, k as int, name),
            decreases self.custom.len() - k,
        {
            let ghost before = texts(names@);
            proof {
                lemma_offered_next(self.custom@, k as int);
            }
            if self.custom[k].steps.any() {
                names.push(self.custom[k].name.clone());
                proof {
                    let added = self.custom[k as int].name@;
                    assert(texts(names@) =~= before.push(added));
                    assert(!before.contains(added)) by {
                        if offered_before(self.custom@, k as int, added) {
                            let e = choose|e: int|
                                0 <= e < k && (#[trigger] self.custom@[e]).name@ == added
                                    && self.custom@[e].steps@.len() > 0;
                            assert(self.custom@[e].name@ != self.custom@[k as int].name@);
                        }
                    }
                    lemma_push_keeps(before, added);
                }
            }
            k += 1;
        }
        proof {
            lemma_offered_all(self.custom@);
        }
        names
    }

    /// Starts running an operation of the file: its steps for that name,
    /// in the directory that holds the file. A file that was not found
    /// anywhere has no such directory and cannot run.
    pub fn run(self, operation: &Operation) -> (step: Step)
        ensures
            step@ == run_step(self@, operation@),
            self@.path.len() == 0 ==> step@ == StepView::Finish(
                Err(FailureView::NoParentDirectory),
            ),
    {
        let steps = self.resolve(operation);
        match parent_of(&self.path) {
            None => Step::Finish(Err(Failure::NoParentDirectory)),
            Some(cwd) => steps.run_all(cwd),
        }
    }
}

/// A failure among the first files is the first failure of them all.
proof fn lemma_failure_stays(files: Seq<FoundFileView>, n: int)
    requires
        0 <= n <= files.len(),
    ensures
        first_failure(files.take(n)).is_some() ==> first_failure(files) == first_failure(
            files.take(n),
        ),
    decreases files.len() - n,
{
    if first_failure(files.take(n)).is_none() {
    } else if n < files.len() {
        assert(files.take(n + 1).drop_last() =~= files.take(n));
        lemma_failure_stays(files, n + 1);
    } else {
        assert(files.take(n) =~= files);
    }
}

/// A fault among the first entries is the first fault of them all.
proof fn lemma_fault_stays(entries: Seq<RawEntryView>, n: int)
    requires
        0 <= n <= entries.len(),
    ensures
        first_fault(entries.take(n)).is_some() ==> first_fault(entries) == first_fault(
            entries.take(n),
        ),
    decreases entries.len() - n,
{
    if first_fault(entries.take(n)).is_none() {
    } else if n < entries.len() {
        assert(entries.take(n + 1).drop_last() =~= entries.take(n));
        lemma_fault_stays(entries, n + 1);
    } else {
        assert(entries.take(n) =~= entries);
    }
}

} // verus!
