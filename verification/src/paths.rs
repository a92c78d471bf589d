//! File paths as byte strings.
//!
//! A path is a string of bytes; what it names is its sequence of components.
//! Paths are compared by their components, so that `a//b/` and `a/./b` are the
//! same path.
use vstd::prelude::*;

use crate::bytes;
use crate::order;
use crate::text;

verus! {

/// Separates the components of a path.
pub const SLASH: u8 = 47;

/// Alone it names the directory that it stands in.
pub const DOT: u8 = 46;

/// One component of a path.
#[verifier::ext_equal]
pub enum ComponentModel {
    Root,
    Current,
    Parent,
    Normal(Seq<u8>),
}

/// The path starts at the root directory.
pub open spec fn rooted(path: Seq<u8>) -> bool {
    path.len() > 0 && path[0] == SLASH
}

/// The path starts with the current directory, spelled out.
pub open spec fn from_current(path: Seq<u8>) -> bool {
    path.len() > 0 && path[0] == DOT && (path.len() == 1 || path[1] == SLASH)
}

/// Where the parts of a path begin, behind what says where it starts.
pub open spec fn body_start(path: Seq<u8>) -> int {
    if rooted(path) || from_current(path) {
        1
    } else {
        0
    }
}

/// The component that a part between slashes names, if any.
pub open spec fn named(part: Seq<u8>) -> Seq<ComponentModel> {
    if part.len() == 0 || part == seq![DOT] {
        Seq::empty()
    } else if part == seq![DOT, DOT] {
        seq![ComponentModel::Parent]
    } else {
        seq![ComponentModel::Normal(part)]
    }
}

/// `named` as a function on parts.
pub open spec fn naming() -> spec_fn(Seq<u8>) -> Seq<ComponentModel> {
    |part: Seq<u8>| named(part)
}

/// Where a path starts, if it says so.
pub open spec fn origin(path: Seq<u8>) -> Seq<ComponentModel> {
    if rooted(path) {
        seq![ComponentModel::Root]
    } else if from_current(path) {
        seq![ComponentModel::Current]
    } else {
        Seq::empty()
    }
}

/// The components of what follows the start of a path.
pub open spec fn body_components(body: Seq<u8>) -> Seq<ComponentModel> {
    bytes::split(body, SLASH).flat_map(naming())
}

/// The components of a path.
pub open spec fn components(path: Seq<u8>) -> Seq<ComponentModel> {
    origin(path) + body_components(path.skip(body_start(path)))
}

/// Two paths name the same file.
pub open spec fn same_path(a: Seq<u8>, b: Seq<u8>) -> bool {
    components(a) == components(b)
}

/// The order of bytes.
pub open spec fn byte_less() -> spec_fn(u8, u8) -> bool {
    |a: u8, b: u8| a < b
}

/// The kinds of components, in their order.
pub open spec fn rank(c: ComponentModel) -> int {
    match c {
        ComponentModel::Root => 0,
        ComponentModel::Current => 1,
        ComponentModel::Parent => 2,
        ComponentModel::Normal(_) => 3,
    }
}

/// The order of components: by kind, then by name.
pub open spec fn component_less() -> spec_fn(ComponentModel, ComponentModel) -> bool {
    |a: ComponentModel, b: ComponentModel|
        match (a, b) {
            (ComponentModel::Normal(x), ComponentModel::Normal(y)) => order::lex_less(
                byte_less(),
                x,
                y,
            ),
            _ => rank(a) < rank(b),
        }
}

/// The order of paths: lexicographic in their components.
pub open spec fn path_precedes(a: Seq<u8>, b: Seq<u8>) -> bool {
    order::lex_less(component_less(), components(a), components(b))
}

proof fn lemma_component_order()
    ensures
        order::strict_total(byte_less()),
        order::strict_total(component_less()),
{
    let less = component_less();
    let names = order::lexicographic(byte_less());
    assert(order::strict_total(byte_less()));
    order::lemma_lexicographic(byte_less());
    assert forall|x: ComponentModel| !#[trigger] less(x, x) by {
        if let ComponentModel::Normal(a) = x {
            assert(!names(a, a));
        }
    }
    assert forall|x: ComponentModel, y: ComponentModel, z: ComponentModel| #[trigger]
        less(x, y) && #[trigger] less(y, z) implies less(x, z) by {
        match (x, y, z) {
            (
                ComponentModel::Normal(a),
                ComponentModel::Normal(b),
                ComponentModel::Normal(c),
            ) => {
                assert(names(a, b) && names(b, c));
                assert(names(a, c));
            },
            _ => {},
        }
    }
    assert forall|x: ComponentModel, y: ComponentModel| x != y implies #[trigger] less(x, y)
        || less(y, x) by {
        match (x, y) {
            (ComponentModel::Normal(a), ComponentModel::Normal(b)) => {
                assert(names(a, b) || names(b, a));
            },
            _ => {},
        }
    }
}

/// Paths are totally ordered: none comes before itself, the order is
/// transitive, and of two paths that do not name the same file one comes
/// before the other.
pub proof fn law_path_order(a: Seq<u8>, b: Seq<u8>, c: Seq<u8>)
    ensures
        !path_precedes(a, a),
        path_precedes(a, b) && path_precedes(b, c) ==> path_precedes(a, c),
        same_path(a, b) || path_precedes(a, b) || path_precedes(b, a),
        same_path(a, b) ==> !path_precedes(a, b),
{
    lemma_component_order();
    order::lemma_lexicographic(component_less());
    let lex = order::lexicographic(component_less());
    assert(!lex(components(a), components(a)));
    if path_precedes(a, b) && path_precedes(b, c) {
        assert(lex(components(a), components(b)) && lex(components(b), components(c)));
        assert(lex(components(a), components(c)));
    }
    if !same_path(a, b) {
        assert(lex(components(a), components(b)) || lex(components(b), components(a)));
    }
}

/// The path of `name` as seen from `dir`.
pub open spec fn joined_path(dir: Seq<u8>, name: Seq<u8>) -> Seq<u8> {
    if rooted(name) {
        name
    } else if dir.len() == 0 || dir.last() == SLASH {
        dir + name
    } else {
        dir + seq![SLASH] + name
    }
}

/// What follows the start of a path, without parts at its end that name
/// nothing.
pub open spec fn trimmed(body: Seq<u8>) -> Seq<u8>
    decreases body.len(),
{
    proof {
        bytes::lemma_last_start(body, SLASH);
    }
    if body.len() > 0 && named(bytes::last_part(body, SLASH)).len() == 0 {
        trimmed(bytes::before_last(body, SLASH))
    } else {
        body
    }
}

/// The path without its last component; none where there is nothing above.
pub open spec fn parent_path(path: Seq<u8>) -> Option<Seq<u8>> {
    let start = body_start(path);
    let body = trimmed(path.skip(start));
    if body.len() > 0 {
        Some(path.take(start) + trimmed(bytes::before_last(body, SLASH)))
    } else if from_current(path) {
        Some(Seq::empty())
    } else {
        None
    }
}

/// The name that a path ends with.
pub open spec fn file_name_of(path: Seq<u8>) -> Option<Seq<u8>> {
    if components(path).len() == 0 {
        None
    } else {
        match components(path).last() {
            ComponentModel::Normal(name) => Some(name),
            _ => None,
        }
    }
}

/// The components of a path body come from its last part and what stands
/// before.
proof fn lemma_body_components(body: Seq<u8>)
    ensures
        body_components(body) == body_components(bytes::before_last(body, SLASH)) + named(
            bytes::last_part(body, SLASH),
        ),
{
    bytes::lemma_last_start(body, SLASH);
    let parts = bytes::split(body, SLASH);
    let none = Seq::<u8>::empty();
    assert(bytes::split(none, SLASH) =~= seq![none]);
    seq![none].lemma_flat_map_singleton(naming());
    if bytes::last_start(body, SLASH) == 0 {
        assert(bytes::last_part(body, SLASH) =~= body);
        seq![body].lemma_flat_map_singleton(naming());
        assert(body_components(body) =~= named(body));
    } else {
        let before = bytes::split(bytes::before_last(body, SLASH), SLASH);
        let last = bytes::last_part(body, SLASH);
        assert(parts == before.push(last));
        parts.lemma_flat_map_take_append(naming(), before.len() as int);
        assert(parts.take(before.len() as int) =~= before);
        assert(parts.take(parts.len() as int) =~= parts);
    }
}

proof fn lemma_trimmed(body: Seq<u8>)
    ensures
        body_components(trimmed(body)) == body_components(body),
        trimmed(body).len() <= body.len(),
        trimmed(body) == body.take(trimmed(body).len() as int),
        trimmed(body).len() > 0 ==> named(bytes::last_part(trimmed(body), SLASH)).len() == 1,
        0 < trimmed(body).len() < body.len() ==> body[trimmed(body).len() as int] == SLASH,
        trimmed(body).len() == 0 ==> body_components(body).len() == 0,
    decreases body.len(),
{
    bytes::lemma_last_start(body, SLASH);
    if body.len() > 0 && named(bytes::last_part(body, SLASH)).len() == 0 {
        let before = bytes::before_last(body, SLASH);
        lemma_trimmed(before);
        lemma_body_components(body);
        assert(trimmed(body) =~= body.take(trimmed(body).len() as int));
    } else {
        assert(body =~= body.take(body.len() as int));
        if body.len() == 0 {
            lemma_body_components(body);
            assert(bytes::last_part(body, SLASH) =~= body);
            let parts = bytes::split(body, SLASH);
            assert(parts =~= seq![body]);
            parts.lemma_flat_map_singleton(naming());
        }
    }
}

/// The parent of a path has its components but the last; a path without a
/// parent has none, or is the root directory.
pub proof fn law_parent_drops_last(path: Seq<u8>)
    ensures
        match parent_path(path) {
            Some(parent) => components(path).len() > 0 && components(parent) == components(
                path,
            ).drop_last(),
            None => components(path).len() == 0 || components(path) == seq![
                ComponentModel::Root,
            ],
        },
{
    let start = body_start(path);
    let whole = path.skip(start);
    let body = trimmed(whole);
    lemma_trimmed(whole);
    if body.len() > 0 {
        bytes::lemma_last_start(body, SLASH);
        lemma_body_components(body);
        let before = bytes::before_last(body, SLASH);
        lemma_trimmed(before);
        let parent = path.take(start) + trimmed(before);
        let rest = trimmed(before);
        assert(rest =~= whole.take(rest.len() as int));
        assert(parent =~= path.take(start + rest.len()));
        assert(origin(parent) == origin(path)) by {
            if start == 0 && rest.len() > 0 {
                assert(parent[0] == path[0]);
                if parent.len() == 1 && path.len() > 1 {
                    assert(whole[1] == path[1]);
                    assert(path[1] == SLASH) by {
                        if before.len() > 1 {
                            assert(before[1] == whole[1]);
                        } else {
                            assert(body[1] == SLASH);
                        }
                    }
                }
            } else if start == 1 {
                assert(parent[0] == path[0]);
                if parent.len() > 1 {
                    assert(parent[1] == path[1]);
                }
            }
        }
        assert(parent.skip(body_start(parent)) =~= rest);
        assert(components(parent) =~= components(path).drop_last());
    } else if from_current(path) {
        let none = Seq::<u8>::empty();
        lemma_trimmed(none);
        assert(none.skip(0) =~= none);
        assert(components(none) =~= components(path).drop_last());
    } else {
        assert(components(path) =~= origin(path));
    }
}

/// A plain name: it holds no slash and does not stand for a directory.
pub open spec fn plain_name(name: Seq<u8>) -> bool {
    &&& name.len() > 0
    &&& !name.contains(SLASH)
    &&& name != seq![DOT]
    &&& name != seq![DOT, DOT]
}

/// A part behind a slash adds the component that it names.
proof fn lemma_added_part(above: Seq<u8>, name: Seq<u8>)
    requires
        !name.contains(SLASH),
    ensures
        body_components(above + seq![SLASH] + name) == body_components(above) + named(name),
{
    let longer = above + seq![SLASH] + name;
    let at = bytes::last_start(longer, SLASH);
    bytes::lemma_last_start(longer, SLASH);
    lemma_body_components(longer);
    assert(longer[above.len() as int] == SLASH);
    if at > above.len() + 1 {
        assert(name[at - 1 - above.len() - 1] == SLASH);
    }
    assert(bytes::before_last(longer, SLASH) =~= above);
    assert(bytes::last_part(longer, SLASH) =~= name);
}

/// A name without slashes is one part.
proof fn lemma_single_part(name: Seq<u8>)
    requires
        !name.contains(SLASH),
    ensures
        body_components(name) == named(name),
{
    let none = Seq::<u8>::empty();
    bytes::lemma_last_start(name, SLASH);
    let at = bytes::last_start(name, SLASH);
    if at > 0 {
        assert(name[at - 1] == SLASH);
    }
    assert(bytes::before_last(name, SLASH) =~= none);
    assert(bytes::last_part(name, SLASH) =~= name);
    lemma_body_components(name);
    lemma_trimmed(none);
    assert(body_components(name) =~= named(name));
}

/// A path that is joined to a plain name starts where it started.
proof fn lemma_join_keeps_origin(dir: Seq<u8>, name: Seq<u8>)
    requires
        plain_name(name),
        dir.len() > 0,
    ensures
        origin(joined_path(dir, name)) == origin(dir),
        body_start(joined_path(dir, name)) == body_start(dir),
        joined_path(dir, name).skip(body_start(dir)) == (if dir.last() == SLASH {
            dir.skip(body_start(dir)) + name
        } else {
            dir.skip(body_start(dir)) + seq![SLASH] + name
        }),
{
    let path = joined_path(dir, name);
    let start = body_start(dir);
    assert(!rooted(name)) by {
        if rooted(name) {
            assert(name[0] == SLASH);
        }
    }
    assert(path[0] == dir[0]);
    if dir.len() > 1 {
        assert(path[1] == dir[1]);
    } else if dir.last() != SLASH {
        assert(path[1] == SLASH);
    }
    if dir.last() == SLASH {
        assert(path.skip(start) =~= dir.skip(start) + name);
    } else {
        assert(path.skip(start) =~= dir.skip(start) + seq![SLASH] + name);
    }
}

/// Joining a plain name to a directory adds it as the last component.
pub proof fn law_join_adds_name(dir: Seq<u8>, name: Seq<u8>)
    requires
        plain_name(name),
    ensures
        components(joined_path(dir, name)) == components(dir).push(ComponentModel::Normal(name)),
{
    let path = joined_path(dir, name);
    let body = dir.skip(body_start(dir));
    let none = Seq::<u8>::empty();
    lemma_single_part(name);
    lemma_trimmed(none);
    if dir.len() == 0 {
        assert(!rooted(name)) by {
            if rooted(name) {
                assert(name[0] == SLASH);
            }
        }
        assert(!from_current(name)) by {
            if from_current(name) && name.len() > 1 {
                assert(name[1] == SLASH);
            } else if from_current(name) {
                assert(name =~= seq![DOT]);
            }
        }
        assert(path =~= name);
        assert(name.skip(0) =~= name);
        assert(dir.skip(0) =~= none);
    } else {
        lemma_join_keeps_origin(dir, name);
        if body.len() == 0 {
            assert(body =~= none);
            assert(none + name =~= name);
            lemma_added_part(none, name);
        } else if dir.last() == SLASH {
            let above = body.drop_last();
            assert(body.last() == SLASH);
            assert(above + seq![SLASH] =~= body);
            lemma_added_part(above, name);
            assert(body =~= above + seq![SLASH] + none);
            lemma_added_part(above, none);
        } else {
            lemma_added_part(body, name);
        }
    }
    assert(components(path) =~= components(dir).push(ComponentModel::Normal(name)));
}

/// Paths are ordered by their components: where they first differ, the root
/// comes before the current directory, that before a parent, and that before a
/// name; names go by their bytes, and a directory comes before what lies in it.
pub proof fn law_path_order_by_components(
    a: Seq<u8>,
    b: Seq<u8>,
    common: Seq<ComponentModel>,
    x: ComponentModel,
    y: ComponentModel,
    s: Seq<ComponentModel>,
    t: Seq<ComponentModel>,
)
    requires
        components(a) == common.push(x) + s,
    ensures
        components(b) == common.push(y) + t ==> {
            &&& x is Root && !(y is Root) ==> path_precedes(a, b)
            &&& x is Current && (y is Parent || y is Normal) ==> path_precedes(a, b)
            &&& x is Parent && y is Normal ==> path_precedes(a, b)
        },
        components(b) == common ==> path_precedes(b, a),
{
    let k = common.len() as int;
    if components(b) == common.push(y) + t && component_less()(x, y) {
        assert(order::diverges_at(component_less(), components(a), components(b), k));
    }
    if components(b) == common {
        assert(order::diverges_at(component_less(), components(b), components(a), k));
    }
}

/// Names are ordered by the first byte in which they differ, and a name that
/// goes on comes behind the one that has ended.
pub proof fn law_names_are_ordered_by_bytes(
    dir: Seq<u8>,
    head: Seq<u8>,
    x: u8,
    y: u8,
    s: Seq<u8>,
    t: Seq<u8>,
)
    requires
        plain_name(head.push(x) + s),
        plain_name(head.push(y) + t),
    ensures
        x < y ==> path_precedes(
            joined_path(dir, head.push(x) + s),
            joined_path(dir, head.push(y) + t),
        ),
        plain_name(head) ==> path_precedes(joined_path(dir, head), joined_path(dir, head.push(x) + s)),
{
    let a = head.push(x) + s;
    let b = head.push(y) + t;
    let k = head.len() as int;
    let c = components(dir);
    law_join_adds_name(dir, a);
    law_join_adds_name(dir, b);
    if x < y {
        assert(order::diverges_at(byte_less(), a, b, k));
        assert(component_less()(ComponentModel::Normal(a), ComponentModel::Normal(b)));
        assert(order::diverges_at(
            component_less(),
            c.push(ComponentModel::Normal(a)),
            c.push(ComponentModel::Normal(b)),
            c.len() as int,
        ));
    }
    if plain_name(head) {
        law_join_adds_name(dir, head);
        assert(order::diverges_at(byte_less(), head, a, k));
        assert(component_less()(ComponentModel::Normal(head), ComponentModel::Normal(a)));
        assert(order::diverges_at(
            component_less(),
            c.push(ComponentModel::Normal(head)),
            c.push(ComponentModel::Normal(a)),
            c.len() as int,
        ));
    }
}

/// The last name of a path is what was joined to it last; a path that ends in
/// two dots or is the root has none.
pub proof fn law_file_name(dir: Seq<u8>, name: Seq<u8>)
    requires
        plain_name(name),
    ensures
        file_name_of(joined_path(dir, name)) == Some(name),
        file_name_of(seq![47u8]) is None,
        dir.len() > 0 && dir[0] == 47 ==> file_name_of(dir + seq![47u8, 46u8, 46u8]) is None,
{
    law_join_adds_name(dir, name);
    law_components_of_short_paths();
    if dir.len() > 0 && dir[0] == 47 {
        law_components_of_dots(dir);
    }
}

/// The root and the current directory are components of their own, and the
/// empty path has none.
pub proof fn law_components_of_short_paths()
    ensures
        components(Seq::empty()).len() == 0,
        components(seq![47u8]) == seq![ComponentModel::Root],
        components(seq![46u8]) == seq![ComponentModel::Current],
{
    let none = Seq::<u8>::empty();
    lemma_single_part(none);
    assert(none.skip(0) =~= none);
    assert(seq![47u8].skip(1) =~= none);
    assert(seq![46u8].skip(1) =~= none);
    assert(components(none) =~= Seq::empty());
    assert(components(seq![47u8]) =~= seq![ComponentModel::Root]);
    assert(components(seq![46u8]) =~= seq![ComponentModel::Current]);
}

/// Behind a directory two dots add the parent directory; one dot and a further
/// slash add nothing.
pub proof fn law_components_of_dots(dir: Seq<u8>)
    requires
        dir.len() > 0,
        dir[0] == 47,
    ensures
        components(dir + seq![47u8, 46u8, 46u8]) == components(dir).push(ComponentModel::Parent),
        components(dir + seq![47u8, 46u8]) == components(dir),
        components(dir + seq![47u8]) == components(dir),
{
    let body = dir.skip(1);
    let none = Seq::<u8>::empty();
    lemma_added_part(body, none);
    lemma_added_part(body, seq![46u8]);
    lemma_added_part(body, seq![46u8, 46u8]);
    assert((dir + seq![47u8]).skip(1) =~= body + seq![SLASH] + none);
    assert((dir + seq![47u8, 46u8]).skip(1) =~= body + seq![SLASH] + seq![46u8]);
    assert((dir + seq![47u8, 46u8, 46u8]).skip(1) =~= body + seq![SLASH] + seq![46u8, 46u8]);
    assert(seq![46u8, 46u8].len() != seq![46u8].len());
    assert(components(dir + seq![47u8]) =~= components(dir));
    assert(components(dir + seq![47u8, 46u8]) =~= components(dir));
    assert(components(dir + seq![47u8, 46u8, 46u8]) =~= components(dir).push(
        ComponentModel::Parent,
    ));
}

/// A file path.
#[derive(Debug, PartialEq, Eq)]
pub struct FilePath {
    pub bytes: Vec<u8>,
}

impl View for FilePath {
    type V = Seq<u8>;

    open spec fn view(&self) -> Seq<u8> {
        self.bytes@
    }
}

impl Clone for FilePath {
    fn clone(&self) -> (r: Self)
        ensures
            r@ == self@,
    {
        FilePath { bytes: bytes::copy_bytes(self.bytes.as_slice()) }
    }
}

/// One component of a path, as a value.
pub enum PathComponent {
    Root,
    Current,
    Parent,
    Normal(Vec<u8>),
}

impl View for PathComponent {
    type V = ComponentModel;

    open spec fn view(&self) -> ComponentModel {
        match self {
            PathComponent::Root => ComponentModel::Root,
            PathComponent::Current => ComponentModel::Current,
            PathComponent::Parent => ComponentModel::Parent,
            PathComponent::Normal(name) => ComponentModel::Normal(name@),
        }
    }
}

fn component_of(part: Vec<u8>) -> (r: Option<PathComponent>)
    ensures
        r matches Some(c) ==> named(part@) == seq![c@],
        r is None ==> named(part@).len() == 0,
{
    if part.len() == 0 || (part.len() == 1 && part[0] == DOT) {
        assert(part@.len() == 1 ==> part@ =~= seq![DOT]);
        None
    } else if part.len() == 2 && part[0] == DOT && part[1] == DOT {
        assert(part@ =~= seq![DOT, DOT]);
        Some(PathComponent::Parent)
    } else {
        Some(PathComponent::Normal(part))
    }
}

fn byte_lex_less(a: &Vec<u8>, b: &Vec<u8>) -> (r: bool)
    ensures
        r == order::lex_less(byte_less(), a@, b@),
{
    let n = if a.len() <= b.len() { a.len() } else { b.len() };
    for i in 0..n
        invariant
            n <= a@.len(),
            n <= b@.len(),
            forall|j: int| 0 <= j < i ==> a@[j] == b@[j],
    {
        if a[i] < b[i] {
            assert(order::diverges_at(byte_less(), a@, b@, i as int));
            return true;
        }
        if b[i] < a[i] {
            assert forall|k: int| !#[trigger] order::diverges_at(byte_less(), a@, b@, k) by {
                if k > i {
                    assert(a@[i as int] != b@[i as int]);
                }
            }
            return false;
        }
    }
    if a.len() < b.len() {
        assert(order::diverges_at(byte_less(), a@, b@, n as int));
        true
    } else {
        assert forall|k: int| !#[trigger] order::diverges_at(byte_less(), a@, b@, k) by {
            if 0 <= k < n {
                assert(a@[k] == b@[k]);
            }
        }
        false
    }
}

impl PathComponent {
    fn number(&self) -> (r: u8)
        ensures
            r == rank(self@),
    {
        match self {
            PathComponent::Root => 0,
            PathComponent::Current => 1,
            PathComponent::Parent => 2,
            PathComponent::Normal(_) => 3,
        }
    }

    fn comes_before(&self, other: &Self) -> (r: bool)
        ensures
            r == component_less()(self@, other@),
    {
        match (self, other) {
            (PathComponent::Normal(a), PathComponent::Normal(b)) => byte_lex_less(a, b),
            _ => self.number() < other.number(),
        }
    }

    fn is_same(&self, other: &Self) -> (r: bool)
        ensures
            r == (self@ == other@),
    {
        match (self, other) {
            (PathComponent::Normal(a), PathComponent::Normal(b)) => bytes::bytes_eq(
                a.as_slice(),
                b.as_slice(),
            ),
            _ => self.number() == other.number(),
        }
    }
}

fn is_rooted(path: &[u8]) -> (r: bool)
    ensures
        r == rooted(path@),
{
    path.len() > 0 && path[0] == SLASH
}

fn is_from_current(path: &[u8]) -> (r: bool)
    ensures
        r == from_current(path@),
{
    path.len() > 0 && path[0] == DOT && (path.len() == 1 || path[1] == SLASH)
}

fn path_components(path: &[u8]) -> (r: Vec<PathComponent>)
    ensures
        text::views(r@) == components(path@),
{
    let mut out: Vec<PathComponent> = Vec::new();
    let mut start: usize = 0;
    if is_rooted(path) {
        out.push(PathComponent::Root);
        start = 1;
    } else if is_from_current(path) {
        out.push(PathComponent::Current);
        start = 1;
    }
    assert(text::views(out@) =~= origin(path@));
    let body = bytes::byte_range(path, start, path.len());
    assert(body@ =~= path@.skip(body_start(path@)));
    let mut parts = bytes::split_bytes(body.as_slice(), SLASH);
    let ghost all = bytes::split(body@, SLASH);
    let n = parts.len();
    assert(all.take(0).map_values(naming()) =~= Seq::empty());
    assert(all.take(0).flat_map(naming()) =~= Seq::empty());
    for i in 0..n
        invariant
            n == parts@.len(),
            n == all.len(),
            forall|j: int| i <= j < n ==> (#[trigger] parts@[j])@ == all[j],
            text::views(out@) == origin(path@) + all.take(i as int).flat_map(naming()),
    {
        let mut part: Vec<u8> = Vec::new();
        assert(parts@[i as int]@ == all[i as int]);
        std::mem::swap(&mut part, &mut parts[i]);
        let ghost before = text::views(out@);
        proof {
            all.lemma_flat_map_take_append(naming(), i as int);
        }
        match component_of(part) {
            Some(component) => {
                out.push(component);
                assert(text::views(out@) =~= before.push(component@));
            },
            None => {},
        }
    }
    assert(all.take(all.len() as int) =~= all);
    out
}

/// The text that stands for a path: its bytes as UTF-8, with a replacement
/// character for what is not.
pub open spec fn shown(path: Seq<u8>) -> Seq<char> {
    bytes::lossy(path)
}

/// A file name without its extension.
pub open spec fn stem(name: Seq<u8>) -> Seq<u8> {
    let before = bytes::before_last(name, DOT);
    if before.len() == 0 {
        name
    } else {
        before
    }
}

/// Removes the extension of a file name.
pub fn name_stem(name: &[u8]) -> (r: Vec<u8>)
    ensures
        r@ == stem(name@),
{
    let at = bytes::find_last_start(name, DOT);
    let r = if at > 1 {
        bytes::byte_range(name, 0, at - 1)
    } else {
        bytes::copy_bytes(name)
    };
    proof {
        bytes::lemma_last_start(name@, DOT);
    }
    r
}

fn trim_body(body: &[u8]) -> (r: usize)
    ensures
        r <= body@.len(),
        trimmed(body@) == body@.take(r as int),
{
    let mut end = body.len();
    assert(body@.take(end as int) =~= body@);
    while end > 0
        invariant
            end <= body@.len(),
            trimmed(body@.take(end as int)) == trimmed(body@),
        ensures
            end <= body@.len(),
            trimmed(body@) == body@.take(end as int),
        decreases end,
    {
        let head = bytes::byte_range(body, 0, end);
        assert(head@ =~= body@.take(end as int));
        let at = bytes::find_last_start(head.as_slice(), SLASH);
        let part = bytes::byte_range(head.as_slice(), at, head.len());
        assert(part@ =~= bytes::last_part(head@, SLASH));
        if component_of(part).is_some() {
            break;
        }
        let cut = if at > 0 { at - 1 } else { 0 };
        assert(bytes::before_last(head@, SLASH) =~= body@.take(cut as int));
        end = cut;
    }
    end
}

impl FilePath {
    /// The path that a text spells.
    pub fn from_text(spelled: &str) -> (r: Self)
        ensures
            r@ == vstd::utf8::encode_utf8(spelled@),
    {
        FilePath { bytes: bytes::copy_bytes(spelled.as_bytes()) }
    }

    /// The text that stands for the path.
    pub fn display(&self) -> (r: String)
        ensures
            r@ == shown(self@),
    {
        bytes::lossy_text(self.bytes.as_slice())
    }

    /// The path of `name` as seen from this directory.
    pub fn join(&self, name: &FilePath) -> (r: FilePath)
        ensures
            r@ == joined_path(self@, name@),
    {
        if is_rooted(name.bytes.as_slice()) {
            return name.clone();
        }
        let mut out = bytes::copy_bytes(self.bytes.as_slice());
        let n = out.len();
        if n > 0 && out[n - 1] != SLASH {
            out.push(SLASH);
            assert(out@ =~= self@ + seq![SLASH]);
        }
        bytes::append_bytes(&mut out, name.bytes.as_slice());
        FilePath { bytes: out }
    }

    /// The path without its last component.
    pub fn parent(&self) -> (r: Option<FilePath>)
        ensures
            match r {
                Some(parent) => parent_path(self@) == Some(parent@),
                None => parent_path(self@) is None,
            },
    {
        let path = self.bytes.as_slice();
        let here = is_from_current(path);
        let start: usize = if is_rooted(path) || here { 1 } else { 0 };
        let body = bytes::byte_range(path, start, path.len());
        assert(body@ =~= self@.skip(body_start(self@)));
        let end = trim_body(body.as_slice());
        if end > 0 {
            let kept = bytes::byte_range(body.as_slice(), 0, end);
            assert(kept@ =~= body@.take(end as int));
            let at = bytes::find_last_start(kept.as_slice(), SLASH);
            let cut = if at > 0 { at - 1 } else { 0 };
            let above = bytes::byte_range(kept.as_slice(), 0, cut);
            assert(above@ =~= bytes::before_last(kept@, SLASH));
            let above_end = trim_body(above.as_slice());
            let mut out = bytes::byte_range(path, 0, start);
            assert(out@ =~= self@.take(start as int));
            let tail = bytes::byte_range(above.as_slice(), 0, above_end);
            assert(tail@ =~= above@.take(above_end as int));
            bytes::append_bytes(&mut out, tail.as_slice());
            Some(FilePath { bytes: out })
        } else if here {
            let none: Vec<u8> = Vec::new();
            assert(none@ =~= Seq::empty());
            Some(FilePath { bytes: none })
        } else {
            None
        }
    }

    /// The name that the path ends with.
    pub fn file_name(&self) -> (r: Option<Vec<u8>>)
        ensures
            match r {
                Some(name) => file_name_of(self@) == Some(name@),
                None => file_name_of(self@) is None,
            },
    {
        let mut list = path_components(self.bytes.as_slice());
        let ghost all = text::views(list@);
        match list.pop() {
            Some(PathComponent::Normal(name)) => {
                assert(all.last() == ComponentModel::Normal(name@));
                Some(name)
            },
            Some(other) => {
                assert(all.last() == other@);
                None
            },
            None => None,
        }
    }

    /// Tells whether two paths name the same file.
    pub fn is_same(&self, other: &FilePath) -> (r: bool)
        ensures
            r == same_path(self@, other@),
    {
        let a = path_components(self.bytes.as_slice());
        let b = path_components(other.bytes.as_slice());
        if a.len() != b.len() {
            return false;
        }
        for i in 0..a.len()
            invariant
                a@.len() == b@.len(),
                text::views(a@) == components(self@),
                text::views(b@) == components(other@),
                forall|j: int| 0 <= j < i ==> components(self@)[j] == components(other@)[j],
        {
            if !a[i].is_same(&b[i]) {
                assert(text::views(a@)[i as int] != text::views(b@)[i as int]);
                return false;
            }
            assert(text::views(a@)[i as int] == text::views(b@)[i as int]);
        }
        assert(components(self@) =~= components(other@));
        true
    }

    /// Tells whether this path comes before `other`.
    pub fn comes_before(&self, other: &FilePath) -> (r: bool)
        ensures
            r == path_precedes(self@, other@),
    {
        let a = path_components(self.bytes.as_slice());
        let b = path_components(other.bytes.as_slice());
        let ghost x = components(self@);
        let ghost y = components(other@);
        let ghost less = component_less();
        proof {
            lemma_component_order();
        }
        let n = if a.len() <= b.len() { a.len() } else { b.len() };
        for i in 0..n
            invariant
                n <= a@.len(),
                n <= b@.len(),
                x == components(self@),
                y == components(other@),
                less == component_less(),
                order::strict_total(less),
                text::views(a@) == x,
                text::views(b@) == y,
                forall|j: int| 0 <= j < i ==> x[j] == y[j],
        {
            assert(a@[i as int]@ == x[i as int]);
            assert(b@[i as int]@ == y[i as int]);
            if a[i].comes_before(&b[i]) {
                assert(order::diverges_at(less, x, y, i as int));
                return true;
            }
            if !a[i].is_same(&b[i]) {
                assert(less(y[i as int], x[i as int]));
                assert forall|k: int| !#[trigger] order::diverges_at(less, x, y, k) by {
                    if k > i {
                        assert(x[i as int] != y[i as int]);
                    }
                }
                return false;
            }
        }
        if a.len() < b.len() {
            assert(order::diverges_at(less, x, y, n as int));
            true
        } else {
            assert forall|k: int| !#[trigger] order::diverges_at(less, x, y, k) by {
                if 0 <= k < n {
                    assert(x[k] == y[k]);
                    assert(!less(x[k], x[k]));
                }
            }
            false
        }
    }
}

} // verus!
