//! Live previews of blur and pixelate annotations.
//!
//! **What is on screen must be exactly what gets saved**: a redaction that looks
//! opaque in the editor but exports softer would leak. So a preview is computed
//! by the very function that exports, per annotation, and kept until it is no
//! longer asked for. What is decided here is which previews are missing, and
//! which can be dropped.
//!
//! A preview is known by the **pixels actually covered** and by the **exact**
//! strength. Rounding either would hand out a preview of something else.

use crate::geometry::Rect;
use vstd::prelude::*;

verus! {

/// How an annotation hides what is below it.
#[derive(Debug, Clone, Copy, PartialEq, Eq, Hash, Structural)]
pub enum EffectKind {
    /// By blurring.
    Blur,
    /// By large blocks.
    Pixelate,
}

/// The pixels that an effect touches: columns `x0..x1` of rows `y0..y1`.
#[derive(Debug, Clone, Copy, PartialEq, Eq, Hash, Structural)]
pub struct Region {
    /// The first column.
    pub x0: u32,
    /// The first row.
    pub y0: u32,
    /// The column after the last one.
    pub x1: u32,
    /// The row after the last one.
    pub y1: u32,
}

/// Identifies one processed region.
#[derive(Debug, Clone, Copy, PartialEq, Eq, Hash, Structural)]
pub struct EffectKey {
    /// The pixels covered.
    pub region: Region,
    /// How they are hidden.
    pub kind: EffectKind,
    /// How strongly, as the bits of a single-precision number.
    pub strength_bits: u32,
}

impl EffectKey {
    /// The key of an effect on a region; `None` when the effect covers no pixels
    /// of the image.
    pub fn new(region: Option<Region>, kind: EffectKind, strength_bits: u32) -> (key: Option<
        EffectKey,
    >)
        ensures
            key == (match region {
                Some(region) => Some(EffectKey { region, kind, strength_bits }),
                None => None,
            }),
    {
        match region {
            Some(region) => Some(EffectKey { region, kind, strength_bits }),
            None => None,
        }
    }

    /// The rectangle of the image that this key covers.
    pub fn covered(&self) -> (r: Rect)
        ensures
            r == (Rect {
                left: self.region.x0 as i64,
                top: self.region.y0 as i64,
                right: self.region.x1 as i64,
                bottom: self.region.y1 as i64,
            }),
    {
        Rect {
            left: self.region.x0 as i64,
            top: self.region.y0 as i64,
            right: self.region.x1 as i64,
            bottom: self.region.y1 as i64,
        }
    }
}

/// A preview that the document needs.
#[derive(Debug, Clone, Copy, PartialEq, Eq, Structural)]
pub struct Request {
    /// The effect is strong enough to be seen.
    pub visible: bool,
    /// What is to be processed, if it covers any pixels.
    pub key: Option<EffectKey>,
}

/// The key of a request that needs a preview.
pub open spec fn wanted(request: Request) -> Option<EffectKey> {
    if request.visible {
        request.key
    } else {
        None
    }
}

/// The keys of the requests that need a preview, in order.
pub open spec fn wanted_keys(requests: Seq<Request>) -> Seq<EffectKey>
    decreases requests.len(),
{
    if requests.len() == 0 {
        seq![]
    } else {
        let before = wanted_keys(requests.drop_last());
        match wanted(requests.last()) {
            Some(key) => before.push(key),
            None => before,
        }
    }
}

/// The keys that are wanted and not known yet, in order.
pub open spec fn unknown_keys(requests: Seq<Request>, known: spec_fn(EffectKey) -> bool) -> Seq<
    EffectKey,
>
    decreases requests.len(),
{
    if requests.len() == 0 {
        seq![]
    } else {
        let before = unknown_keys(requests.drop_last(), known);
        match wanted(requests.last()) {
            Some(key) if !known(key) => before.push(key),
            _ => before,
        }
    }
}

/// Which previews there are.
#[derive(Debug)]
pub struct EffectTextures {
    /// The size of the image that every preview was derived from.
    pub image_size: Option<(u32, u32)>,
    /// The previews there are.
    pub textures: Vec<EffectKey>,
    /// What was asked for in the current frame. A blur being dragged asks for a
    /// new rectangle every frame, so without dropping the rest there would be
    /// ever more previews for as long as the drag lasts.
    pub live: Vec<EffectKey>,
    /// What gave no preview. It must not be tried again every frame.
    pub empty: Vec<EffectKey>,
}

fn holds(keys: &Vec<EffectKey>, key: EffectKey) -> (yes: bool)
    ensures
        yes == keys@.contains(key),
{
    let mut i: usize = 0;
    while i < keys.len()
        invariant
            i <= keys@.len(),
            forall|j: int| 0 <= j < i ==> keys@[j] != key,
        decreases keys@.len() - i,
    {
        if keys[i] == key {
            assert(keys@[i as int] == key);
            return true;
        }
        i = i + 1;
    }
    false
}

/// The keys of `keys` that are in `live`.
pub open spec fn kept(keys: Seq<EffectKey>, live: Seq<EffectKey>) -> Seq<EffectKey>
    decreases keys.len(),
{
    if keys.len() == 0 {
        seq![]
    } else if live.contains(keys.last()) {
        kept(keys.drop_last(), live).push(keys.last())
    } else {
        kept(keys.drop_last(), live)
    }
}

fn keep(keys: &Vec<EffectKey>, live: &Vec<EffectKey>) -> (rest: Vec<EffectKey>)
    ensures
        rest@ == kept(keys@, live@),
{
    let mut rest: Vec<EffectKey> = Vec::new();
    let mut i: usize = 0;
    while i < keys.len()
        invariant
            i <= keys@.len(),
            rest@ == kept(keys@.take(i as int), live@),
        decreases keys@.len() - i,
    {
        assert(keys@.take(i + 1).drop_last() =~= keys@.take(i as int));
        if holds(live, keys[i]) {
            rest.push(keys[i]);
        }
        i = i + 1;
    }
    assert(keys@.take(i as int) =~= keys@);
    rest
}

/// What is kept after a frame was asked for in it: the previews cannot pile up
/// while an annotation is dragged.
pub proof fn law_only_what_is_asked_for_is_kept(
    keys: Seq<EffectKey>,
    live: Seq<EffectKey>,
    key: EffectKey,
)
    ensures
        kept(keys, live).contains(key) <==> keys.contains(key) && live.contains(key),
    decreases keys.len(),
{
    if keys.len() > 0 {
        let rest = keys.drop_last();
        law_only_what_is_asked_for_is_kept(rest, live, key);
        let before = kept(rest, live);
        if keys.contains(key) && keys.last() != key {
            let i = choose|i: int| 0 <= i < keys.len() && keys[i] == key;
            assert(rest[i] == key);
        }
        if rest.contains(key) {
            let i = choose|i: int| 0 <= i < rest.len() && rest[i] == key;
            assert(keys[i] == key);
        }
        if live.contains(keys.last()) {
            let all = before.push(keys.last());
            if before.contains(key) {
                let i = choose|i: int| 0 <= i < before.len() && before[i] == key;
                assert(all[i] == key);
            }
            assert(all[all.len() - 1] == keys.last());
            if all.contains(key) && key != keys.last() {
                let i = choose|i: int| 0 <= i < all.len() && all[i] == key;
                assert(before[i] == key);
            }
        }
        if key == keys.last() {
            assert(keys[keys.len() - 1] == key);
        }
    }
}

/// The previews after some were computed: `made[i]` says whether the i-th of the
/// keys gave one.
pub open spec fn sorted_out(keys: Seq<EffectKey>, made: Seq<bool>, which: bool) -> Seq<EffectKey>
    decreases keys.len(),
{
    if keys.len() == 0 {
        seq![]
    } else {
        let before = sorted_out(keys.drop_last(), made, which);
        if made[keys.len() - 1] == which {
            before.push(keys.last())
        } else {
            before
        }
    }
}

/// `keys`, with those of `more` behind them that were not there yet.
pub open spec fn with_keys(keys: Seq<EffectKey>, more: Seq<EffectKey>) -> Seq<EffectKey>
    decreases more.len(),
{
    if more.len() == 0 {
        keys
    } else {
        let before = with_keys(keys, more.drop_last());
        if before.contains(more.last()) {
            before
        } else {
            before.push(more.last())
        }
    }
}

proof fn lemma_with_keys(keys: Seq<EffectKey>, more: Seq<EffectKey>, key: EffectKey)
    ensures
        with_keys(keys, more).contains(key) <==> keys.contains(key) || more.contains(key),
        keys.no_duplicates() ==> with_keys(keys, more).no_duplicates(),
    decreases more.len(),
{
    if more.len() > 0 {
        let rest = more.drop_last();
        let before = with_keys(keys, rest);
        let last = more.last();
        lemma_with_keys(keys, rest, key);
        assert(more[more.len() - 1] == last);
        if rest.contains(key) {
            let i = choose|i: int| 0 <= i < rest.len() && rest[i] == key;
            assert(more[i] == key);
        }
        if more.contains(key) && key != last {
            let i = choose|i: int| 0 <= i < more.len() && more[i] == key;
            assert(rest[i] == key);
        }
        if !before.contains(last) {
            let all = before.push(last);
            assert(all[all.len() - 1] == last);
            if before.contains(key) {
                let i = choose|i: int| 0 <= i < before.len() && before[i] == key;
                assert(all[i] == key);
            }
            if all.contains(key) && key != last {
                let i = choose|i: int| 0 <= i < all.len() && all[i] == key;
                assert(before[i] == key);
            }
        }
    }
}

proof fn lemma_kept_once(keys: Seq<EffectKey>, live: Seq<EffectKey>)
    requires
        keys.no_duplicates(),
    ensures
        kept(keys, live).no_duplicates(),
    decreases keys.len(),
{
    if keys.len() > 0 {
        let rest = keys.drop_last();
        let before = kept(rest, live);
        lemma_kept_once(rest, live);
        law_only_what_is_asked_for_is_kept(rest, live, keys.last());
        assert(!rest.contains(keys.last()));
    }
}

impl EffectTextures {
    /// There is at most one preview for a key.
    pub open spec fn wf(self) -> bool {
        self.textures@.no_duplicates()
    }

    /// No previews.
    pub fn new() -> (t: EffectTextures)
        ensures
            t.wf(),
            t.image_size is None,
            t.textures@.len() == 0,
            t.live@.len() == 0,
            t.empty@.len() == 0,
    {
        EffectTextures {
            image_size: None,
            textures: Vec::new(),
            live: Vec::new(),
            empty: Vec::new(),
        }
    }

    /// Drop every preview.
    pub fn clear(&mut self)
        ensures
            final(self).wf(),
            final(self).image_size is None,
            final(self).textures@.len() == 0,
            final(self).live@.len() == 0,
            final(self).empty@.len() == 0,
    {
        *self = EffectTextures::new();
    }

    /// Are there no previews?
    pub fn is_empty(&self) -> (yes: bool)
        ensures
            yes == (self.textures@.len() == 0),
    {
        self.textures.len() == 0
    }

    /// The size of the image that the previews were derived from.
    pub fn image_size(&self) -> (size: Option<(u32, u32)>)
        ensures
            size == self.image_size,
    {
        self.image_size
    }

    /// Is there a preview for a key?
    pub fn texture_for(&self, key: Option<EffectKey>) -> (yes: bool)
        ensures
            yes == (key matches Some(k) && self.textures@.contains(k)),
    {
        match key {
            Some(k) => holds(&self.textures, k),
            None => false,
        }
    }

    /// Nothing has to be computed for a key: there is a preview, or it gave
    /// none.
    pub open spec fn knows(self, key: EffectKey) -> bool {
        self.textures@.contains(key) || self.empty@.contains(key)
    }

    /// What is known of an image of this size: a crop or a new capture
    /// invalidates every preview.
    pub open spec fn knows_for(self, size: (u32, u32), key: EffectKey) -> bool {
        self.image_size == Some(size) && self.knows(key)
    }

    /// Work out what is missing for a frame. Call once per frame, and then
    /// [`EffectTextures::settle`] with what became of it.
    pub fn ensure(&mut self, size: (u32, u32), requests: &[Request]) -> (missing: Vec<EffectKey>)
        requires
            old(self).wf(),
        ensures
            final(self).wf(),
            final(self).image_size == Some(size),
            final(self).live@ == wanted_keys(requests@),
            old(self).image_size == Some(size) ==> final(self).textures@ == old(self).textures@
                && final(self).empty@ == old(self).empty@,
            old(self).image_size != Some(size) ==> final(self).textures@.len() == 0
                && final(self).empty@.len() == 0,
            missing@ == unknown_keys(
                requests@,
                |key: EffectKey| old(self).knows_for(size, key),
            ),
    {
        let same = match self.image_size {
            Some((width, height)) => width == size.0 && height == size.1,
            None => false,
        };
        if !same {
            self.textures = Vec::new();
            self.empty = Vec::new();
            self.image_size = Some(size);
        }
        let ghost before = *old(self);
        let ghost known = |key: EffectKey| before.knows_for(size, key);
        let mut live: Vec<EffectKey> = Vec::new();
        let mut missing: Vec<EffectKey> = Vec::new();
        let mut i: usize = 0;
        while i < requests.len()
            invariant
                i <= requests@.len(),
                forall|key: EffectKey| #[trigger] self.knows(key) == known(key),
                live@ == wanted_keys(requests@.take(i as int)),
                missing@ == unknown_keys(requests@.take(i as int), known),
            decreases requests@.len() - i,
        {
            let request = requests[i];
            let ghost part = requests@.take(i + 1);
            assert(part.drop_last() =~= requests@.take(i as int));
            assert(part.last() == request);
            if request.visible {
                match request.key {
                    Some(key) => {
                        live.push(key);
                        assert(self.knows(key) == known(key));
                        if !holds(&self.textures, key) && !holds(&self.empty, key) {
                            missing.push(key);
                        }
                    },
                    None => {},
                }
            }
            i = i + 1;
        }
        assert(requests@.take(i as int) =~= requests@);
        self.live = live;
        missing
    }

    /// Take in which of the missing keys gave a preview, and drop whatever was
    /// not asked for in this frame.
    pub fn settle(&mut self, missing: &Vec<EffectKey>, made: &Vec<bool>)
        requires
            old(self).wf(),
            made@.len() == missing@.len(),
        ensures
            final(self).wf(),
            final(self).image_size == old(self).image_size,
            final(self).live@ == old(self).live@,
            final(self).textures@ == kept(
                with_keys(old(self).textures@, sorted_out(missing@, made@, true)),
                old(self).live@,
            ),
            final(self).empty@ == kept(
                old(self).empty@ + sorted_out(missing@, made@, false),
                old(self).live@,
            ),
    {
        let mut i: usize = 0;
        assert(self.textures@ == with_keys(
            old(self).textures@,
            sorted_out(missing@.take(0), made@, true),
        ));
        assert(self.empty@ =~= old(self).empty@ + sorted_out(missing@.take(0), made@, false));
        while i < missing.len()
            invariant
                i <= missing@.len(),
                made@.len() == missing@.len(),
                self.image_size == old(self).image_size,
                self.live@ == old(self).live@,
                self.textures@ == with_keys(
                    old(self).textures@,
                    sorted_out(missing@.take(i as int), made@, true),
                ),
                self.empty@ == old(self).empty@ + sorted_out(
                    missing@.take(i as int),
                    made@,
                    false,
                ),
            decreases missing@.len() - i,
        {
            let ghost part = missing@.take(i + 1);
            assert(part.drop_last() =~= missing@.take(i as int));
            assert(part.last() == missing@[i as int]);
            if made[i] {
                let ghost done = sorted_out(part.drop_last(), made@, true);
                assert(sorted_out(part, made@, true).drop_last() =~= done);
                if !holds(&self.textures, missing[i]) {
                    self.textures.push(missing[i]);
                }
            } else {
                self.empty.push(missing[i]);
            }
            assert(self.textures@ == with_keys(
                old(self).textures@,
                sorted_out(part, made@, true),
            ));
            assert(self.empty@ =~= old(self).empty@ + sorted_out(part, made@, false));
            i = i + 1;
        }
        assert(missing@.take(i as int) =~= missing@);
        proof {
            if missing@.len() > 0 {
                lemma_with_keys(
                    old(self).textures@,
                    sorted_out(missing@, made@, true),
                    missing@[0],
                );
            }
            lemma_kept_once(self.textures@, self.live@);
        }
        self.textures = keep(&self.textures, &self.live);
        self.empty = keep(&self.empty, &self.live);
    }
}

proof fn lemma_sorted_out(keys: Seq<EffectKey>, made: Seq<bool>, key: EffectKey)
    requires
        keys.contains(key),
    ensures
        sorted_out(keys, made, true).contains(key) || sorted_out(keys, made, false).contains(key),
    decreases keys.len(),
{
    let last = keys.len() - 1;
    let which = made[last];
    if keys.last() == key {
        let out = sorted_out(keys, made, which);
        assert(out[out.len() - 1] == key);
    } else {
        let i = choose|i: int| 0 <= i < keys.len() && keys[i] == key;
        assert(keys.drop_last()[i] == key);
        lemma_sorted_out(keys.drop_last(), made, key);
        let w = if sorted_out(keys.drop_last(), made, true).contains(key) {
            true
        } else {
            false
        };
        let before = sorted_out(keys.drop_last(), made, w);
        let j = choose|j: int| 0 <= j < before.len() && before[j] == key;
        assert(sorted_out(keys, made, w)[j] == key);
    }
}

proof fn lemma_wanted(requests: Seq<Request>, i: int)
    requires
        0 <= i < requests.len(),
        wanted(requests[i]) is Some,
    ensures
        wanted_keys(requests).contains(wanted(requests[i])->Some_0),
    decreases requests.len(),
{
    let key = wanted(requests[i])->Some_0;
    let all = wanted_keys(requests);
    if i == requests.len() - 1 {
        assert(all[all.len() - 1] == key);
    } else {
        lemma_wanted(requests.drop_last(), i);
        let before = wanted_keys(requests.drop_last());
        let j = choose|j: int| 0 <= j < before.len() && before[j] == key;
        assert(all[j] == key);
    }
}

proof fn lemma_unknown(requests: Seq<Request>, known: spec_fn(EffectKey) -> bool, i: int)
    requires
        0 <= i < requests.len(),
        wanted(requests[i]) is Some,
        !known(wanted(requests[i])->Some_0),
    ensures
        unknown_keys(requests, known).contains(wanted(requests[i])->Some_0),
    decreases requests.len(),
{
    let key = wanted(requests[i])->Some_0;
    let all = unknown_keys(requests, known);
    if i == requests.len() - 1 {
        assert(all[all.len() - 1] == key);
    } else {
        lemma_unknown(requests.drop_last(), known, i);
        let before = unknown_keys(requests.drop_last(), known);
        let j = choose|j: int| 0 <= j < before.len() && before[j] == key;
        assert(all[j] == key);
    }
}

proof fn lemma_nothing_unknown(requests: Seq<Request>, known: spec_fn(EffectKey) -> bool)
    requires
        forall|i: int|
            0 <= i < requests.len() && wanted(#[trigger] requests[i]) is Some ==> known(
                wanted(requests[i])->Some_0,
            ),
    ensures
        unknown_keys(requests, known).len() == 0,
    decreases requests.len(),
{
    if requests.len() > 0 {
        let rest = requests.drop_last();
        assert forall|i: int| 0 <= i < rest.len() && wanted(#[trigger] rest[i]) is Some implies known(
            wanted(rest[i])->Some_0,
        ) by {
            assert(requests[i] == rest[i]);
        }
        lemma_nothing_unknown(rest, known);
        assert(requests[requests.len() - 1] == requests.last());
    }
}

/// Nothing is computed twice: once a frame has been settled, the same requests
/// on the same image miss nothing.
///
/// `before` is what there was, `asked` what asking for `requests` made of it,
/// and `after` what settling the missing previews made of that.
pub proof fn law_nothing_is_computed_twice(
    before: EffectTextures,
    asked: EffectTextures,
    after: EffectTextures,
    size: (u32, u32),
    requests: Seq<Request>,
    made: Seq<bool>,
)
    requires
        asked.live@ == wanted_keys(requests),
        before.image_size == Some(size) ==> asked.textures@ == before.textures@ && asked.empty@
            == before.empty@,
        asked.image_size == Some(size),
        after.image_size == Some(size),
        ({
            let missing = unknown_keys(requests, |key: EffectKey| before.knows_for(size, key));
            &&& after.textures@ == kept(
                with_keys(asked.textures@, sorted_out(missing, made, true)),
                asked.live@,
            )
            &&& after.empty@ == kept(asked.empty@ + sorted_out(missing, made, false), asked.live@)
        }),
    ensures
        unknown_keys(requests, |key: EffectKey| after.knows_for(size, key)).len() == 0,
{
    let known = |key: EffectKey| before.knows_for(size, key);
    let missing = unknown_keys(requests, known);
    let yes = sorted_out(missing, made, true);
    let no = sorted_out(missing, made, false);
    assert forall|i: int|
        0 <= i < requests.len() && wanted(#[trigger] requests[i]) is Some implies after.knows_for(
        size,
        wanted(requests[i])->Some_0,
    ) by {
        let key = wanted(requests[i])->Some_0;
        lemma_wanted(requests, i);
        lemma_with_keys(asked.textures@, yes, key);
        law_only_what_is_asked_for_is_kept(with_keys(asked.textures@, yes), asked.live@, key);
        law_only_what_is_asked_for_is_kept(asked.empty@ + no, asked.live@, key);
        if known(key) {
            if !before.textures@.contains(key) {
                let j = choose|j: int| 0 <= j < before.empty@.len() && before.empty@[j] == key;
                assert((asked.empty@ + no)[j] == key);
            }
        } else {
            lemma_unknown(requests, known, i);
            lemma_sorted_out(missing, made, key);
            if !yes.contains(key) {
                let j = choose|j: int| 0 <= j < no.len() && no[j] == key;
                assert((asked.empty@ + no)[asked.empty@.len() + j] == key);
            }
        }
    }
    lemma_nothing_unknown(requests, |key: EffectKey| after.knows_for(size, key));
}

/// A preview is wanted exactly for the visible requests that cover pixels.
pub proof fn law_visible_effects_are_wanted(requests: Seq<Request>, key: EffectKey)
    ensures
        wanted_keys(requests).contains(key) <==> exists|i: int|
            0 <= i < requests.len() && (#[trigger] requests[i]).visible && requests[i].key == Some(
                key,
            ),
    decreases requests.len(),
{
    if requests.len() > 0 {
        let rest = requests.drop_last();
        let last = requests.len() - 1;
        law_visible_effects_are_wanted(rest, key);
        let before = wanted_keys(rest);
        let all = wanted_keys(requests);
        if all.contains(key) {
            let k = choose|k: int| 0 <= k < all.len() && all[k] == key;
            if k < before.len() {
                assert(before[k] == key);
                let i = choose|i: int|
                    0 <= i < rest.len() && (#[trigger] rest[i]).visible && rest[i].key == Some(key);
                assert(requests[i] == rest[i]);
            } else {
                assert(requests[last].visible && requests[last].key == Some(key));
            }
        }
        if exists|i: int|
            0 <= i < requests.len() && (#[trigger] requests[i]).visible && requests[i].key == Some(
                key,
            ) {
            let i = choose|i: int|
                0 <= i < requests.len() && (#[trigger] requests[i]).visible && requests[i].key
                    == Some(key);
            assert(wanted(requests[i]) == Some(key));
            lemma_wanted(requests, i);
        }
    } else {
        assert(!wanted_keys(requests).contains(key));
    }
}

/// What is computed is what is wanted and not known.
pub proof fn law_what_is_unknown_is_computed(
    requests: Seq<Request>,
    known: spec_fn(EffectKey) -> bool,
    key: EffectKey,
)
    ensures
        unknown_keys(requests, known).contains(key) <==> !known(key) && exists|i: int|
            0 <= i < requests.len() && (#[trigger] requests[i]).visible && requests[i].key == Some(
                key,
            ),
    decreases requests.len(),
{
    if requests.len() > 0 {
        let rest = requests.drop_last();
        let last = requests.len() - 1;
        law_what_is_unknown_is_computed(rest, known, key);
        let before = unknown_keys(rest, known);
        let all = unknown_keys(requests, known);
        if all.contains(key) {
            let k = choose|k: int| 0 <= k < all.len() && all[k] == key;
            if k < before.len() {
                assert(before[k] == key);
                let i = choose|i: int|
                    0 <= i < rest.len() && (#[trigger] rest[i]).visible && rest[i].key == Some(key);
                assert(requests[i] == rest[i]);
            } else {
                assert(requests[last].visible && requests[last].key == Some(key));
            }
        }
        if !known(key) && exists|i: int|
            0 <= i < requests.len() && (#[trigger] requests[i]).visible && requests[i].key == Some(
                key,
            ) {
            let i = choose|i: int|
                0 <= i < requests.len() && (#[trigger] requests[i]).visible && requests[i].key
                    == Some(key);
            assert(wanted(requests[i]) == Some(key));
            lemma_unknown(requests, known, i);
        }
    } else {
        assert(!unknown_keys(requests, known).contains(key));
    }
}

/// The keys are sorted out by what became of them.
pub proof fn law_keys_are_sorted_out_by_their_outcome(
    keys: Seq<EffectKey>,
    made: Seq<bool>,
    which: bool,
    key: EffectKey,
)
    ensures
        sorted_out(keys, made, which).contains(key) <==> exists|i: int|
            0 <= i < keys.len() && #[trigger] keys[i] == key && made[i] == which,
    decreases keys.len(),
{
    let all = sorted_out(keys, made, which);
    if keys.len() > 0 {
        let rest = keys.drop_last();
        let last = keys.len() - 1;
        law_keys_are_sorted_out_by_their_outcome(rest, made, which, key);
        let before = sorted_out(rest, made, which);
        if all.contains(key) {
            let k = choose|k: int| 0 <= k < all.len() && all[k] == key;
            if k < before.len() {
                assert(before[k] == key);
                let i = choose|i: int|
                    0 <= i < rest.len() && #[trigger] rest[i] == key && made[i] == which;
                assert(keys[i] == key);
            } else {
                assert(keys[last] == key && made[last] == which);
            }
        }
        if exists|i: int| 0 <= i < keys.len() && #[trigger] keys[i] == key && made[i] == which {
            let i = choose|i: int|
                0 <= i < keys.len() && #[trigger] keys[i] == key && made[i] == which;
            if i < last {
                assert(rest[i] == key);
                assert(before.contains(key));
                let k = choose|k: int| 0 <= k < before.len() && before[k] == key;
                assert(all[k] == key);
            } else {
                assert(all[before.len() as int] == key);
            }
        }
    } else {
        assert(!all.contains(key));
    }
}

/// Adding keys loses none, adds no other, and doubles none.
pub proof fn law_keys_are_added_once(keys: Seq<EffectKey>, more: Seq<EffectKey>, key: EffectKey)
    ensures
        with_keys(keys, more).contains(key) <==> keys.contains(key) || more.contains(key),
        keys.no_duplicates() ==> with_keys(keys, more).no_duplicates(),
{
    lemma_with_keys(keys, more, key);
}

/// What is known of an image is what was found out for one of the same size:
/// that there is a preview, or that there is none.
pub proof fn law_what_is_known_is_of_the_same_size(
    t: EffectTextures,
    size: (u32, u32),
    key: EffectKey,
)
    ensures
        t.knows_for(size, key) <==> (t.image_size matches Some(of) && of.0 == size.0 && of.1
            == size.1) && (t.textures@.contains(key) || t.empty@.contains(key)),
{
}

} // verus!
