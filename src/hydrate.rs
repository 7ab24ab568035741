//! Overlaying environment variables onto a configuration instance.
use vstd::prelude::*;

use crate::convert::{accepts, convert, error_of, value_of, ConvError, CustomLeaf, TypeTag};
use crate::literal::bool_literal;
use crate::naming::{extend_name, path_name, root_name, var_name};
use crate::schema::{children_match, shape_matches, Node, SchemaKind, SchemaNode};

verus! {

/// A conversion that failed during hydration: the variable that held the
/// text, and why the text was refused.
#[derive(Debug, PartialEq, Eq)]
pub struct HydrateError {
    pub variable: String,
    pub error: ConvError,
}

/// The value of the first entry of `env` named `name`.
pub open spec fn lookup(env: Seq<(String, String)>, name: Seq<char>) -> Option<Seq<char>>
    decreases env.len(),
{
    if env.len() == 0 {
        None
    } else if env[0].0@ == name {
        Some(env[0].1@)
    } else {
        lookup(env.drop_first(), name)
    }
}

/// What hydrating a leaf of type `tag`, read from the variable `var`, does.
/// An unset variable leaves the value as it was; a set one whose text
/// converts replaces it; one whose text does not leaves it and fails with
/// the variable's name and the conversion's error.
pub open spec fn leaf_hydrated<C: CustomLeaf>(
    custom: C,
    tag: TypeTag,
    var: Seq<char>,
    env: Seq<(String, String)>,
    before: Node,
    after: Node,
    res: Result<(), HydrateError>,
) -> bool {
    match lookup(env, var) {
        None => after == before && res is Ok,
        Some(raw) => if accepts(custom, raw, tag) {
            after is Leaf && value_of(custom, raw, tag, after->Leaf_0) && res is Ok
        } else {
            after == before && res is Err && res->Err_0.variable@ == var && res->Err_0.error@
                == error_of(custom, raw, tag)
        },
    }
}

/// What hydrating the field `field`, inside the groups `path` of a schema
/// declared with `prefix`, does to the node `before`.
pub open spec fn node_hydrated<C: CustomLeaf>(
    custom: C,
    field: SchemaNode,
    prefix: Seq<char>,
    path: Seq<Seq<char>>,
    env: Seq<(String, String)>,
    before: Node,
    after: Node,
    res: Result<(), HydrateError>,
) -> bool
    decreases field, 0nat,
{
    match field.kind {
        SchemaKind::Leaf(tag) => leaf_hydrated(
            custom,
            tag,
            var_name(prefix, path, field.name@),
            env,
            before,
            after,
            res,
        ),
        SchemaKind::Group(fields) => before is Group && after is Group && children_hydrated(
            custom,
            fields,
            prefix,
            path.push(field.name@),
            env,
            before->Group_0@,
            after->Group_0@,
            res,
        ),
    }
}

/// What hydrating the children `before` of a group with the fields `fields`
/// does. Children are visited in order; on success each is hydrated. On a
/// failure at child `k`, those before it are hydrated, `k` fails with the
/// error returned, and those after it are left as they were.
pub open spec fn children_hydrated<C: CustomLeaf>(
    custom: C,
    fields: Vec<SchemaNode>,
    prefix: Seq<char>,
    path: Seq<Seq<char>>,
    env: Seq<(String, String)>,
    before: Seq<Node>,
    after: Seq<Node>,
    res: Result<(), HydrateError>,
) -> bool
    decreases fields, 1nat,
{
    &&& before.len() == fields.len()
    &&& after.len() == fields.len()
    &&& res is Ok ==> forall|i: int|
        0 <= i < fields.len() ==> node_hydrated(
            custom,
            #[trigger] fields[i],
            prefix,
            path,
            env,
            before[i],
            after[i],
            Ok(()),
        )
    &&& res is Err ==> exists|k: int|
        #![trigger after[k]]
        failed_at(custom, fields, prefix, path, env, before, after, res, k)
}

/// Hydration of the children `before` stopped at child `k`: those before it
/// were hydrated, `k` failed with `res`, and those after it were left as
/// they were.
pub open spec fn failed_at<C: CustomLeaf>(
    custom: C,
    fields: Vec<SchemaNode>,
    prefix: Seq<char>,
    path: Seq<Seq<char>>,
    env: Seq<(String, String)>,
    before: Seq<Node>,
    after: Seq<Node>,
    res: Result<(), HydrateError>,
    k: int,
) -> bool
    decreases fields, 0nat,
{
    &&& 0 <= k < fields.len()
    &&& forall|i: int|
        0 <= i < k ==> node_hydrated(
            custom,
            #[trigger] fields[i],
            prefix,
            path,
            env,
            before[i],
            after[i],
            Ok(()),
        )
    &&& node_hydrated(custom, fields[k], prefix, path, env, before[k], after[k], res)
    &&& forall|i: int| k < i < fields.len() ==> #[trigger] after[i] == before[i]
}

proof fn lemma_failure_at<C: CustomLeaf>(
    custom: C,
    fields: Vec<SchemaNode>,
    prefix: Seq<char>,
    path: Seq<Seq<char>>,
    env: Seq<(String, String)>,
    before: Seq<Node>,
    after: Seq<Node>,
    res: Result<(), HydrateError>,
    k: int,
)
    requires
        res is Err,
        before.len() == fields.len(),
        after.len() == fields.len(),
        0 <= k < fields.len(),
        forall|i: int|
            0 <= i < k ==> node_hydrated(
                custom,
                #[trigger] fields[i],
                prefix,
                path,
                env,
                before[i],
                after[i],
                Ok(()),
            ),
        node_hydrated(custom, fields[k], prefix, path, env, before[k], after[k], res),
        forall|i: int| k < i < fields.len() ==> #[trigger] after[i] == before[i],
    ensures
        children_hydrated(custom, fields, prefix, path, env, before, after, res),
{
    assert(failed_at(custom, fields, prefix, path, env, before, after, res, k));
}

/// Position in `env` of the first entry named `name`.
fn find_var(env: &Vec<(String, String)>, name: &String) -> (r: Option<usize>)
    ensures
        r is None <==> lookup(env@, name@) is None,
        r is Some ==> r->0 < env.len() && lookup(env@, name@) == Some(env@[r->0 as int].1@),
{
    let n = env.len();
    let mut i: usize = 0;
    assert(env@.subrange(0, n as int) == env@);
    while i < n
        invariant
            n == env.len(),
            i <= n,
            lookup(env@.subrange(i as int, n as int), name@) == lookup(env@, name@),
        decreases n - i,
    {
        let ghost rest = env@.subrange(i as int, n as int);
        assert(rest[0] == env@[i as int]);
        if env[i].0 == *name {
            return Some(i);
        }
        assert(rest.drop_first() == env@.subrange(i + 1, n as int));
        i = i + 1;
    }
    None
}

/// Hydrates one node against its field; `parent` is the name of the group
/// that holds it.
fn hydrate_node<C: CustomLeaf>(
    node: &mut Node,
    field: &SchemaNode,
    parent: &String,
    Ghost(prefix): Ghost<Seq<char>>,
    Ghost(path): Ghost<Seq<Seq<char>>>,
    env: &Vec<(String, String)>,
    custom: &C,
) -> (r: Result<(), HydrateError>)
    requires
        shape_matches(*field, *old(node)),
        parent@ == path_name(prefix, path),
    ensures
        node_hydrated(*custom, *field, prefix, path, env@, *old(node), *final(node), r),
    decreases field,
{
    let here = extend_name(parent, field.name.as_str());
    assert(path.push(field.name@).drop_last() == path);
    match &field.kind {
        SchemaKind::Leaf(tag) => {
            match find_var(env, &here) {
                None => Ok(()),
                Some(k) => match convert(env[k].1.as_str(), tag, custom) {
                    Ok(v) => {
                        *node = Node::Leaf(v);
                        Ok(())
                    },
                    Err(e) => Err(HydrateError { variable: here, error: e }),
                },
            }
        },
        SchemaKind::Group(fields) => {
            let mut taken = Node::Group(Vec::new());
            std::mem::swap(node, &mut taken);
            match taken {
                Node::Group(mut children) => {
                    let r = hydrate_children(
                        &mut children,
                        fields,
                        &here,
                        Ghost(prefix),
                        Ghost(path.push(field.name@)),
                        env,
                        custom,
                    );
                    *node = Node::Group(children);
                    r
                },
                Node::Leaf(v) => {
                    *node = Node::Leaf(v);
                    Ok(())
                },
            }
        },
    }
}

/// Hydrates the children of a group with the fields `fields`, in order,
/// stopping at the first failure; `here` is the group's name.
fn hydrate_children<C: CustomLeaf>(
    children: &mut Vec<Node>,
    fields: &Vec<SchemaNode>,
    here: &String,
    Ghost(prefix): Ghost<Seq<char>>,
    Ghost(path): Ghost<Seq<Seq<char>>>,
    env: &Vec<(String, String)>,
    custom: &C,
) -> (r: Result<(), HydrateError>)
    requires
        children_match(fields@, old(children)@),
        here@ == path_name(prefix, path),
    ensures
        children_hydrated(
            *custom,
            *fields,
            prefix,
            path,
            env@,
            old(children)@,
            final(children)@,
            r,
        ),
    decreases fields,
{
    let ghost before = children@;
    let n = fields.len();
    let mut i: usize = 0;
    while i < n
        invariant
            n == fields.len(),
            i <= n,
            before == old(children)@,
            before.len() == n,
            children@.len() == n,
            children_match(fields@, before),
            here@ == path_name(prefix, path),
            forall|j: int|
                0 <= j < i ==> node_hydrated(
                    *custom,
                    #[trigger] fields[j],
                    prefix,
                    path,
                    env@,
                    before[j],
                    children@[j],
                    Ok(()),
                ),
            forall|j: int| i <= j < n ==> #[trigger] children@[j] == before[j],
        decreases n - i,
    {
        let ghost mid = children@;
        let mut child = children.remove(i);
        let r = hydrate_node(&mut child, &fields[i], here, Ghost(prefix), Ghost(path), env, custom);
        let ghost done = child;
        children.insert(i, child);
        assert(children@ == mid.update(i as int, done));
        if r.is_err() {
            proof {
                lemma_failure_at(
                    *custom,
                    *fields,
                    prefix,
                    path,
                    env@,
                    before,
                    children@,
                    r,
                    i as int,
                );
            }

            return r;
        }
        i = i + 1;
    }
    Ok(())
}

/// A leaf whose variable is unset keeps the value it had, whatever its
/// type, and its hydration succeeds.
pub proof fn lemma_absent_leaf_unchanged<C: CustomLeaf>(
    custom: C,
    field: SchemaNode,
    prefix: Seq<char>,
    path: Seq<Seq<char>>,
    env: Seq<(String, String)>,
    before: Node,
    after: Node,
    res: Result<(), HydrateError>,
)
    requires
        field.kind is Leaf,
        lookup(env, var_name(prefix, path, field.name@)) is None,
        node_hydrated(custom, field, prefix, path, env, before, after, res),
    ensures
        after == before,
        res is Ok,
{
}

/// A leaf whose variable is set to text that converts takes the converted
/// value, whatever value it held before.
pub proof fn lemma_set_leaf_overrides<C: CustomLeaf>(
    custom: C,
    field: SchemaNode,
    prefix: Seq<char>,
    path: Seq<Seq<char>>,
    env: Seq<(String, String)>,
    raw: Seq<char>,
    before: Node,
    after: Node,
    res: Result<(), HydrateError>,
)
    requires
        field.kind is Leaf,
        lookup(env, var_name(prefix, path, field.name@)) == Some(raw),
        accepts(custom, raw, field.kind->Leaf_0),
        node_hydrated(custom, field, prefix, path, env, before, after, res),
    ensures
        after is Leaf,
        value_of(custom, raw, field.kind->Leaf_0, after->Leaf_0),
        res is Ok,
{
}

/// When the variable of the boolean leaf `fields[k]` holds text that is no
/// boolean literal, hydrating the group fails, and no field after `k` is
/// touched.
pub proof fn lemma_bad_literal_aborts<C: CustomLeaf>(
    custom: C,
    fields: Vec<SchemaNode>,
    prefix: Seq<char>,
    path: Seq<Seq<char>>,
    env: Seq<(String, String)>,
    raw: Seq<char>,
    before: Seq<Node>,
    after: Seq<Node>,
    res: Result<(), HydrateError>,
    k: int,
)
    requires
        0 <= k < fields.len(),
        fields[k].kind == SchemaKind::Leaf(TypeTag::Bool),
        lookup(env, var_name(prefix, path, fields[k].name@)) == Some(raw),
        bool_literal(raw) is None,
        children_hydrated(custom, fields, prefix, path, env, before, after, res),
    ensures
        res is Err,
        forall|i: int| k < i < fields.len() ==> #[trigger] after[i] == before[i],
{
    if res is Ok {
        assert(node_hydrated(custom, fields[k], prefix, path, env, before[k], after[k], Ok(())));
    }
    let j = choose|j: int|
        #![trigger after[j]]
        failed_at(custom, fields, prefix, path, env, before, after, res, j);
    assert(failed_at(custom, fields, prefix, path, env, before, after, res, j));
    if j > k {
        assert(node_hydrated(custom, fields[k], prefix, path, env, before[k], after[k], Ok(())));
    }
}

/// Hydrating a group hydrates its children under the group's path: every
/// leaf, at any depth, is read from the variable named by its full path.
pub proof fn lemma_group_descends<C: CustomLeaf>(
    custom: C,
    field: SchemaNode,
    prefix: Seq<char>,
    path: Seq<Seq<char>>,
    env: Seq<(String, String)>,
    before: Node,
    after: Node,
    res: Result<(), HydrateError>,
)
    requires
        field.kind is Group,
        node_hydrated(custom, field, prefix, path, env, before, after, res),
    ensures
        before is Group,
        after is Group,
        children_hydrated(
            custom,
            field.kind->Group_0,
            prefix,
            path.push(field.name@),
            env,
            before->Group_0@,
            after->Group_0@,
            res,
        ),
{
}

/// Overlays the environment `env` (name and value of each variable) onto
/// `instance`, whose children follow the fields `schema` of a schema
/// declared with `prefix`; `custom` converts the leaves of domain types.
/// Stops at the first variable whose text does not convert, and reports it.
pub fn hydrate<C: CustomLeaf>(
    instance: &mut Node,
    schema: &Vec<SchemaNode>,
    prefix: &str,
    env: &Vec<(String, String)>,
    custom: &C,
) -> (r: Result<(), HydrateError>)
    requires
        *old(instance) is Group,
        children_match(schema@, old(instance)->Group_0@),
    ensures
        *final(instance) is Group,
        children_hydrated(
            *custom,
            *schema,
            prefix@,
            seq![],
            env@,
            old(instance)->Group_0@,
            final(instance)->Group_0@,
            r,
        ),
{
    let root = root_name(prefix);
    let mut taken = Node::Group(Vec::new());
    std::mem::swap(instance, &mut taken);
    match taken {
        Node::Group(mut children) => {
            let r = hydrate_children(
                &mut children,
                schema,
                &root,
                Ghost(prefix@),
                Ghost(Seq::empty()),
                env,
                custom,
            );
            *instance = Node::Group(children);
            r
        },
        Node::Leaf(v) => {
            *instance = Node::Leaf(v);
            Ok(())
        },
    }
}

} // verus!
