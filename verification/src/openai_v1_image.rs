//! The image-generation profile kind: its resolved shape, its built-in default
//! and its inheritance resolver.

use vstd::prelude::*;

use crate::inherit::{
    defs_view, expansion_wf, flatten, flatten_name, flatten_names, visiting_set,
};
use crate::io::{
    lemma_lookup_some_in_name_set, lookup, name_set, PartialDefinition, PartialView, ProfileStore,
    StoreView, StoredDefView,
};
use crate::profile::ProfileError;

verus! {

/// The fixed set of image dimensions the endpoint accepts.
#[derive(PartialEq, Eq, Structural, Clone, Copy, Debug)]
pub enum OpenAIImageSize {
    Size256x256,
    Size512x512,
    Size1024x1024,
    Size1792x1024,
    Size1024x1792,
}

/// A fully resolved image profile: every field present and concrete.
#[derive(Debug)]
pub struct OpenAIImageGeneration {
    pub url: String,
    pub model: String,
    pub n: u8,
    pub size: OpenAIImageSize,
    pub prompt: String,
}

/// The mathematical value of a resolved image profile.
pub ghost struct ImageView {
    pub url: Seq<char>,
    pub model: Seq<char>,
    pub n: u8,
    pub size: OpenAIImageSize,
    pub prompt: Seq<char>,
}

impl View for OpenAIImageGeneration {
    type V = ImageView;

    open spec fn view(&self) -> ImageView {
        ImageView {
            url: self.url@,
            model: self.model@,
            n: self.n,
            size: self.size,
            prompt: self.prompt@,
        }
    }
}

/// The canonical image-generation endpoint identifier, doubling as the kind
/// discriminator in stored definitions.
pub open spec fn image_endpoint() -> Seq<char> {
    "https://api.openai.com/v1/images/generations"@
}

/// The built-in image profile: fixed endpoint and model, one square image and
/// an empty prompt.
pub open spec fn default_image() -> ImageView {
    ImageView {
        url: image_endpoint(),
        model: "dall-e-3"@,
        n: 1,
        size: OpenAIImageSize::Size1024x1024,
        prompt: Seq::empty(),
    }
}

/// Constructs the built-in image profile.
pub fn default() -> (r: OpenAIImageGeneration)
    ensures
        r@ == default_image(),
{
    let r = OpenAIImageGeneration {
        url: "https://api.openai.com/v1/images/generations".to_owned(),
        model: "dall-e-3".to_owned(),
        n: 1,
        size: OpenAIImageSize::Size1024x1024,
        prompt: "".to_owned(),
    };
    proof {
        reveal_strlit("");
        assert(r.prompt@ =~= Seq::<char>::empty());
    }
    r
}

/// One step of the fold: a definition's explicit image fields merged onto the
/// accumulator, every one last-write-wins.
pub open spec fn merge_image(acc: ImageView, d: PartialView) -> ImageView {
    ImageView {
        url: match d.url {
            Some(u) => u,
            None => acc.url,
        },
        model: match d.model {
            Some(m) => m,
            None => acc.model,
        },
        n: match d.n {
            Some(v) => v,
            None => acc.n,
        },
        size: match d.size {
            Some(s) => s,
            None => acc.size,
        },
        prompt: match d.prompt {
            Some(p) => p,
            None => acc.prompt,
        },
    }
}

/// The whole fold: the flattened definitions merged onto the accumulator in
/// order.
pub open spec fn fold_image(acc: ImageView, defs: Seq<PartialView>) -> ImageView
    decreases defs.len(),
{
    if defs.len() == 0 {
        acc
    } else {
        fold_image(merge_image(acc, defs.first()), defs.drop_first())
    }
}

/// Folding one more definition at the end merges it onto the fold of the
/// rest.
pub proof fn lemma_fold_image_snoc(acc: ImageView, defs: Seq<PartialView>, d: PartialView)
    ensures
        fold_image(acc, defs.push(d)) == merge_image(fold_image(acc, defs), d),
    decreases defs.len(),
{
    if defs.len() == 0 {
        assert(defs.push(d).first() == d);
        assert(defs.push(d).drop_first() =~= Seq::<PartialView>::empty());
        assert(fold_image(acc, defs.push(d)) == fold_image(merge_image(acc, d), Seq::empty()));
    } else {
        assert(defs.push(d).first() == defs.first());
        assert(defs.push(d).drop_first() =~= defs.drop_first().push(d));
        lemma_fold_image_snoc(merge_image(acc, defs.first()), defs.drop_first(), d);
    }
}

/// What resolving `name` as an image profile yields: the ancestry flattened
/// and folded onto the built-in default.
pub open spec fn resolve_image(s: StoreView, name: Seq<char>) -> Result<ImageView, ProfileError> {
    match flatten_name(s.entries, name, Set::empty()) {
        Err(e) => Err(e),
        Ok(defs) => Ok(fold_image(default_image(), defs)),
    }
}

/// The view of an image resolution result.
pub open spec fn image_result_view(r: Result<OpenAIImageGeneration, ProfileError>) -> Result<
    ImageView,
    ProfileError,
> {
    match r {
        Ok(p) => Ok(p@),
        Err(e) => Err(e),
    }
}

/// Folds flattened definitions onto the built-in default, field by field.
#[verifier::loop_isolation(false)]
fn fold(defs: Vec<PartialDefinition>) -> (r: OpenAIImageGeneration)
    ensures
        r@ == fold_image(default_image(), defs_view(defs@)),
{
    let def = default();
    let mut url = def.url;
    let mut model = def.model;
    let mut n_images = def.n;
    let mut size = def.size;
    let mut prompt = def.prompt;
    let ghost dv = defs_view(defs@);
    let n = defs.len();
    let mut i: usize = 0;
    proof {
        assert(dv.take(0) =~= Seq::<PartialView>::empty());
    }
    while i < n
        invariant
            0 <= i <= n,
            ({
                let acc = fold_image(default_image(), dv.take(i as int));
                &&& url@ == acc.url
                &&& model@ == acc.model
                &&& n_images == acc.n
                &&& size == acc.size
                &&& prompt@ == acc.prompt
            }),
        decreases n - i,
    {
        let d = &defs[i];
        match &d.url {
            Some(u) => {
                url = u.clone();
            },
            None => {},
        }
        if let Some(v) = d.n {
            n_images = v;
        }
        match &d.prompt {
            Some(p) => {
                prompt = p.clone();
            },
            None => {},
        }
        match &d.model {
            Some(m) => {
                model = m.clone();
            },
            None => {},
        }
        if let Some(s) = d.size {
            size = s;
        }
        proof {
            assert(dv.take(i as int + 1) =~= dv.take(i as int).push(dv[i as int]));
            lemma_fold_image_snoc(default_image(), dv.take(i as int), dv[i as int]);
            assert(dv[i as int] == d@);
        }
        i = i + 1;
    }
    proof {
        assert(dv.take(n as int) =~= dv);
    }
    OpenAIImageGeneration { url, model, n: n_images, size, prompt }
}

/// A profile with no `inherits` resolves to the built-in default merged with
/// only that profile's own explicit fields.
pub proof fn lemma_resolve_no_inherits_image(s: StoreView, name: Seq<char>, d: PartialView)
    requires
        lookup(s.entries, name) == Some(StoredDefView::Parsed(d)),
        d.inherits is None,
    ensures
        resolve_image(s, name) == Ok::<ImageView, ProfileError>(merge_image(default_image(), d)),
{
    broadcast use vstd::seq_lib::seq_to_set_is_finite;

    let e0: Set<Seq<char>> = Set::empty();
    assert(expansion_wf(s.entries, e0));
    assert(flatten_name(s.entries, name, e0) == Ok::<Seq<PartialView>, ProfileError>(seq![d]));
    assert(seq![d].first() == d);
    assert(seq![d].drop_first() =~= Seq::<PartialView>::empty());
    assert(fold_image(default_image(), seq![d]) == fold_image(
        merge_image(default_image(), d),
        seq![d].drop_first(),
    ));
}

/// In a chain where `a` inherits `b` and `b` inherits `c`, the resolved
/// profile is the built-in default merged with `c`, then `b`, then `a`; every
/// image field is a scalar, so each follows precedence c < b < a.
pub proof fn lemma_chain_precedence_image(
    s: StoreView,
    a: Seq<char>,
    b: Seq<char>,
    c: Seq<char>,
    da: PartialView,
    db: PartialView,
    dc: PartialView,
)
    requires
        a != b,
        a != c,
        b != c,
        lookup(s.entries, a) == Some(StoredDefView::Parsed(da)),
        da.inherits == Some(seq![b]),
        lookup(s.entries, b) == Some(StoredDefView::Parsed(db)),
        db.inherits == Some(seq![c]),
        lookup(s.entries, c) == Some(StoredDefView::Parsed(dc)),
        dc.inherits is None,
    ensures
        resolve_image(s, a) == Ok::<ImageView, ProfileError>(
            merge_image(merge_image(merge_image(default_image(), dc), db), da),
        ),
        ({
            let r = merge_image(merge_image(merge_image(default_image(), dc), db), da);
            &&& r.model == (if da.model is Some {
                da.model->0
            } else if db.model is Some {
                db.model->0
            } else if dc.model is Some {
                dc.model->0
            } else {
                default_image().model
            })
            &&& r.prompt == (if da.prompt is Some {
                da.prompt->0
            } else if db.prompt is Some {
                db.prompt->0
            } else if dc.prompt is Some {
                dc.prompt->0
            } else {
                default_image().prompt
            })
            &&& r.n == (if da.n is Some {
                da.n->0
            } else if db.n is Some {
                db.n->0
            } else if dc.n is Some {
                dc.n->0
            } else {
                default_image().n
            })
            &&& r.size == (if da.size is Some {
                da.size->0
            } else if db.size is Some {
                db.size->0
            } else if dc.size is Some {
                dc.size->0
            } else {
                default_image().size
            })
        }),
{
    broadcast use vstd::seq_lib::seq_to_set_is_finite;

    reveal_with_fuel(flatten_name, 4);
    reveal_with_fuel(flatten_names, 4);
    reveal_with_fuel(fold_image, 5);
    let entries = s.entries;
    let e0: Set<Seq<char>> = Set::empty();
    lemma_lookup_some_in_name_set(entries, a);
    lemma_lookup_some_in_name_set(entries, b);
    lemma_lookup_some_in_name_set(entries, c);
    let va = e0.insert(a);
    let vab = va.insert(b);
    assert(expansion_wf(entries, e0));
    assert(expansion_wf(entries, va));
    assert(expansion_wf(entries, vab));
    assert(seq![b].first() == b);
    assert(seq![c].first() == c);
    assert(seq![b].drop_first() =~= Seq::<Seq<char>>::empty());
    assert(seq![c].drop_first() =~= Seq::<Seq<char>>::empty());
    assert(!vab.contains(c));
    assert(flatten_name(entries, c, vab) == Ok::<Seq<PartialView>, ProfileError>(seq![dc]));
    assert(seq![dc] + Seq::<PartialView>::empty() =~= seq![dc]);
    assert(flatten_name(entries, b, va) == Ok::<Seq<PartialView>, ProfileError>(
        seq![dc].push(db),
    ));
    assert(seq![dc].push(db) =~= seq![dc, db]);
    assert(seq![dc, db] + Seq::<PartialView>::empty() =~= seq![dc, db]);
    assert(flatten_name(entries, a, e0) == Ok::<Seq<PartialView>, ProfileError>(
        seq![dc, db].push(da),
    ));
    assert(seq![dc, db].push(da) =~= seq![dc, db, da]);
    let chain = seq![dc, db, da];
    assert(chain.drop_first() =~= seq![db, da]);
    assert(seq![db, da].drop_first() =~= seq![da]);
    assert(seq![da].drop_first() =~= Seq::<PartialView>::empty());
    assert(fold_image(default_image(), chain) == merge_image(
        merge_image(merge_image(default_image(), dc), db),
        da,
    ));
}

/// Resolves the profile stored under `name` as an image profile, exactly as
/// [`resolve_image`] describes it.
pub fn profile(store: &ProfileStore, name: &String) -> (r: Result<
    OpenAIImageGeneration,
    ProfileError,
>)
    ensures
        image_result_view(r) == resolve_image(store@, name@),
{
    let visiting: Vec<String> = Vec::new();
    proof {
        assert(visiting_set(visiting@) =~= Set::<Seq<char>>::empty());
        assert(Set::<Seq<char>>::empty().subset_of(name_set(store@.entries)));
    }
    match flatten(store, name, &visiting) {
        Err(e) => Err(e),
        Ok(defs) => Ok(fold(defs)),
    }
}

} // verus!
