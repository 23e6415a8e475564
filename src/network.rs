//! The state of the network and the operations on it.
use vstd::multiset::Multiset;
use vstd::prelude::*;
use vstd::seq_lib::{to_multiset_build, to_multiset_insert};

use crate::clock::time_now;
use crate::event::{kind_of, Error, ErrorKind, ErrorView, Event, EventView};
use crate::ids::{decimal, decimal_string, lemma_decimal_injective};
use crate::model::{
    copy_opt, copy_strings, opt_view, strings_view, Like, LikeView, Post, PostView, Tip, TipView,
    User, UserView,
};
use crate::table::{
    lemma_push_fresh, lemma_to_map_domain, lemma_to_map_lookup, lemma_to_map_push,
    lemma_to_map_remove, lemma_to_map_update, lemma_to_map_values, position, to_map, unique_keys,
    Keyed,
};

verus! {

impl Keyed for User {
    open spec fn key_view(&self) -> Seq<char> {
        self.id@
    }

    fn key(&self) -> (r: &String) {
        &self.id
    }
}

impl Keyed for Post {
    open spec fn key_view(&self) -> Seq<char> {
        self.id@
    }

    fn key(&self) -> (r: &String) {
        &self.id
    }
}

/// The users as (id, user) entries.
pub open spec fn user_entries(s: Seq<User>) -> Seq<(Seq<char>, UserView)> {
    s.map_values(|u: User| (u.id@, u@))
}

/// The posts as (id, post) entries.
pub open spec fn post_entries(s: Seq<Post>) -> Seq<(Seq<char>, PostView)> {
    s.map_values(|p: Post| (p.id@, p@))
}

/// The public-key bindings as (key, user id) entries.
pub open spec fn key_entries(s: Seq<(String, String)>) -> Seq<(Seq<char>, Seq<char>)> {
    s.map_values(|e: (String, String)| (e.0@, e.1@))
}

/// The follow lists as (user id, ids) entries.
pub open spec fn list_entries(s: Seq<(String, Vec<String>)>) -> Seq<(Seq<char>, Seq<Seq<char>>)> {
    s.map_values(|e: (String, Vec<String>)| (e.0@, strings_view(e.1@)))
}

/// The list under `k`, or the empty list where there is none.
pub open spec fn list_of(m: Map<Seq<char>, Seq<Seq<char>>>, k: Seq<char>) -> Seq<Seq<char>> {
    if m.contains_key(k) {
        m[k]
    } else {
        Seq::empty()
    }
}

/// `p` with its author name replaced where `id` wrote it.
pub open spec fn renamed(p: PostView, id: Seq<char>, name: Seq<char>) -> PostView {
    if p.author_id == id {
        PostView { author_name: name, ..p }
    } else {
        p
    }
}

/// Rewrites the author name on every post that `id` wrote.
fn rename_author(posts: &mut Vec<Post>, id: &String, name: &String)
    ensures
        final(posts)@.len() == old(posts)@.len(),
        forall|k: int|
            0 <= k < old(posts)@.len() ==> #[trigger] final(posts)@[k]@ == renamed(
                old(posts)@[k]@,
                id@,
                name@,
            ),
{
    let mut j: usize = 0;
    while j < posts.len()
        invariant
            j <= posts@.len(),
            posts@.len() == old(posts)@.len(),
            forall|k: int| 0 <= k < j ==> #[trigger] posts@[k]@ == renamed(old(posts)@[k]@, id@, name@),
            forall|k: int| j <= k < posts@.len() ==> #[trigger] posts@[k] == old(posts)@[k],
        decreases posts@.len() - j,
    {
        if posts[j].author_id.eq(id) {
            let mut p = posts[j].duplicate();
            p.author_name = name.clone();
            posts.set(j, p);
        }
        j += 1;
    }
}

/// Some like on the list is by `u`.
pub open spec fn has_like(likes: Seq<LikeView>, u: Seq<char>) -> bool {
    exists|k: int| 0 <= k < likes.len() && #[trigger] likes[k].user_id == u
}

/// No user appears twice among the likes.
pub open spec fn likers_unique(likes: Seq<LikeView>) -> bool {
    forall|i: int, j: int| 0 <= i < j < likes.len() ==> likes[i].user_id != likes[j].user_id
}

/// Every post of `m` holds at most one like per user.
pub open spec fn all_likers_unique(m: Map<Seq<char>, PostView>) -> bool {
    forall|k: Seq<char>| #[trigger] m.contains_key(k) ==> likers_unique(m[k].likes)
}

/// The number of likes by `u`.
pub open spec fn likes_by(likes: Seq<LikeView>, u: Seq<char>) -> nat
    decreases likes.len(),
{
    if likes.len() == 0 {
        0
    } else {
        likes_by(likes.drop_last(), u) + if likes.last().user_id == u {
            1nat
        } else {
            0nat
        }
    }
}

/// Without a like by `u` the count is zero; with unique likers and one like it is one.
pub proof fn lemma_likes_by(likes: Seq<LikeView>, u: Seq<char>)
    requires
        likers_unique(likes),
    ensures
        likes_by(likes, u) == if has_like(likes, u) {
            1nat
        } else {
            0nat
        },
    decreases likes.len(),
{
    if likes.len() > 0 {
        let t = likes.drop_last();
        assert(likers_unique(t)) by {
            assert forall|i: int, j: int| 0 <= i < j < t.len() implies t[i].user_id
                != t[j].user_id by {
                assert(t[i] == likes[i] && t[j] == likes[j]);
            }
        }
        lemma_likes_by(t, u);
        if has_like(t, u) {
            let k = choose|k: int| 0 <= k < t.len() && #[trigger] t[k].user_id == u;
            assert(likes[k].user_id == u);
            assert(likes.last().user_id != u);
        } else if likes.last().user_id == u {
            assert(likes[likes.len() - 1].user_id == u);
        } else {
            if has_like(likes, u) {
                let k = choose|k: int| 0 <= k < likes.len() && #[trigger] likes[k].user_id == u;
                assert(t[k].user_id == u);
            }
        }
    }
}

/// Whether some like on the list is by `u`.
fn liked_by(likes: &Vec<Like>, u: &String) -> (r: bool)
    ensures
        r == has_like(likes@.map_values(|l: Like| l@), u@),
{
    let ghost lv = likes@.map_values(|l: Like| l@);
    let mut i: usize = 0;
    while i < likes.len()
        invariant
            i <= likes@.len(),
            lv == likes@.map_values(|l: Like| l@),
            forall|k: int| 0 <= k < i ==> #[trigger] lv[k].user_id != u@,
        decreases likes@.len() - i,
    {
        if likes[i].user_id.eq(u) {
            assert(lv[i as int].user_id == u@);
            return true;
        }
        i += 1;
    }
    false
}

/// Keeps the likes that are not by `u`.
pub open spec fn not_by(u: Seq<char>) -> spec_fn(LikeView) -> bool {
    |l: LikeView| l.user_id != u
}

/// Dropping likes keeps the likers unique.
proof fn lemma_filter_keeps_unique(s: Seq<LikeView>, u: Seq<char>)
    requires
        likers_unique(s),
    ensures
        likers_unique(s.filter(not_by(u))),
    decreases s.len(),
{
    reveal(Seq::filter);
    if s.len() > 0 {
        let t = s.drop_last();
        assert(likers_unique(t)) by {
            assert forall|i: int, j: int| 0 <= i < j < t.len() implies t[i].user_id
                != t[j].user_id by {
                assert(t[i] == s[i] && t[j] == s[j]);
            }
        }
        lemma_filter_keeps_unique(t, u);
        let ft = t.filter(not_by(u));
        let f = s.filter(not_by(u));
        if not_by(u)(s.last()) {
            assert(f == ft.push(s.last()));
            assert forall|i: int, j: int| 0 <= i < j < f.len() implies f[i].user_id
                != f[j].user_id by {
                if j == ft.len() {
                    assert(f[i] == ft[i]);
                    assert(ft.contains(ft[i]));
                    t.lemma_filter_contains_rev(not_by(u), ft[i]);
                    let k = choose|k: int| 0 <= k < t.len() && t[k] == ft[i];
                    assert(s[k] == t[k]);
                } else {
                    assert(f[i] == ft[i] && f[j] == ft[j]);
                }
            }
        }
    }
}

/// The likes that are not by `u`.
fn likes_without(likes: &Vec<Like>, u: &String) -> (r: Vec<Like>)
    ensures
        r@.map_values(|l: Like| l@) == likes@.map_values(|l: Like| l@).filter(not_by(u@)),
{
    let ghost lv = likes@.map_values(|l: Like| l@);
    let mut r: Vec<Like> = Vec::new();
    let mut i: usize = 0;
    while i < likes.len()
        invariant
            i <= likes@.len(),
            lv == likes@.map_values(|l: Like| l@),
            r@.map_values(|l: Like| l@) == lv.subrange(0, i as int).filter(not_by(u@)),
        decreases likes@.len() - i,
    {
        let ghost before = r@.map_values(|l: Like| l@);
        if !likes[i].user_id.eq(u) {
            r.push(likes[i].duplicate());
            assert(r@.map_values(|l: Like| l@) =~= before.push(lv[i as int]));
        } else {
            assert(r@.map_values(|l: Like| l@) =~= before);
        }
        assert(lv.subrange(0, i + 1) =~= lv.subrange(0, i as int).push(lv[i as int]));
        proof {
            lv.subrange(0, i as int).lemma_filter_push(lv[i as int], not_by(u@));
        }
        i += 1;
    }
    assert(lv.subrange(0, likes@.len() as int) =~= lv);
    r
}

/// Keeps the ids other than `id`.
pub open spec fn other_than(id: Seq<char>) -> spec_fn(Seq<char>) -> bool {
    |x: Seq<char>| x != id
}

/// An id stays on a list with `id` dropped exactly when it was on it and is not `id`.
pub proof fn lemma_other_than_contains(s: Seq<Seq<char>>, id: Seq<char>, x: Seq<char>)
    ensures
        s.filter(other_than(id)).contains(x) <==> (s.contains(x) && x != id),
{
    if s.filter(other_than(id)).contains(x) {
        s.lemma_filter_contains_rev(other_than(id), x);
        let k = choose|k: int| 0 <= k < s.filter(other_than(id)).len() && s.filter(other_than(id))[k] == x;
        s.lemma_filter_pred(other_than(id), k);
    }
    if s.contains(x) && x != id {
        let k = choose|k: int| 0 <= k < s.len() && s[k] == x;
        s.lemma_filter_contains(other_than(id), k);
    }
}

/// Whether `x` is on the list.
fn contains_string(v: &Vec<String>, x: &String) -> (r: bool)
    ensures
        r == strings_view(v@).contains(x@),
{
    let ghost sv = strings_view(v@);
    let mut i: usize = 0;
    while i < v.len()
        invariant
            i <= v@.len(),
            sv == strings_view(v@),
            forall|k: int| 0 <= k < i ==> #[trigger] sv[k] != x@,
        decreases v@.len() - i,
    {
        if v[i].eq(x) {
            assert(sv[i as int] == x@);
            return true;
        }
        i += 1;
    }
    false
}

/// The list with every `x` dropped.
fn strings_without(v: &Vec<String>, x: &String) -> (r: Vec<String>)
    ensures
        strings_view(r@) == strings_view(v@).filter(other_than(x@)),
{
    let ghost sv = strings_view(v@);
    let mut r: Vec<String> = Vec::new();
    let mut i: usize = 0;
    while i < v.len()
        invariant
            i <= v@.len(),
            sv == strings_view(v@),
            strings_view(r@) == sv.subrange(0, i as int).filter(other_than(x@)),
        decreases v@.len() - i,
    {
        let ghost before = strings_view(r@);
        if !v[i].eq(x) {
            r.push(v[i].clone());
            assert(strings_view(r@) =~= before.push(sv[i as int]));
        } else {
            assert(strings_view(r@) =~= before);
        }
        assert(sv.subrange(0, i + 1) =~= sv.subrange(0, i as int).push(sv[i as int]));
        proof {
            sv.subrange(0, i as int).lemma_filter_push(sv[i as int], other_than(x@));
        }
        i += 1;
    }
    assert(sv.subrange(0, v@.len() as int) =~= sv);
    r
}

/// The list under `k`, or an empty one.
fn list_at(table: &Vec<(String, Vec<String>)>, k: &String) -> (r: Vec<String>)
    requires
        unique_keys(list_entries(table@)),
    ensures
        strings_view(r@) == list_of(to_map(list_entries(table@)), k@),
{
    let ghost s = list_entries(table@);
    proof {
        lemma_to_map_domain(s, k@);
    }
    match position(table, k) {
        Some(i) => {
            proof {
                lemma_to_map_lookup(s, i as int);
            }
            copy_strings(&table[i].1)
        },
        None => {
            proof {
                if to_map(s).contains_key(k@) {
                    let j = choose|j: int| 0 <= j < s.len() && s[j].0 == k@;
                    assert(table@[j].key_view() == k@);
                }
            }
            let r: Vec<String> = Vec::new();
            assert(strings_view(r@) =~= Seq::<Seq<char>>::empty());
            r
        },
    }
}

/// Puts `l` under `k`, in place of any list there.
fn set_list(table: &mut Vec<(String, Vec<String>)>, k: String, l: Vec<String>)
    requires
        unique_keys(list_entries(old(table)@)),
    ensures
        unique_keys(list_entries(final(table)@)),
        to_map(list_entries(final(table)@)) == to_map(list_entries(old(table)@)).insert(
            k@,
            strings_view(l@),
        ),
{
    let ghost s = list_entries(table@);
    let ghost kv = k@;
    let ghost lv = strings_view(l@);
    match position(table, &k) {
        Some(i) => {
            table.set(i, (k, l));
            proof {
                assert(list_entries(table@) =~= s.update(i as int, (s[i as int].0, lv)));
                lemma_to_map_update(s, i as int, lv);
            }
        },
        None => {
            proof {
                lemma_to_map_domain(s, kv);
                if to_map(s).contains_key(kv) {
                    let j = choose|j: int| 0 <= j < s.len() && s[j].0 == kv;
                    assert(table@[j].key_view() == kv);
                }
            }
            table.push((k, l));
            proof {
                assert(list_entries(table@) =~= s.push((kv, lv)));
                lemma_push_fresh(s, (kv, lv));
            }
        },
    }
}

/// The views of a list of posts.
pub open spec fn post_views(s: Seq<Post>) -> Seq<PostView> {
    s.map_values(|p: Post| p@)
}

/// Newest first: timestamps never increase along the list.
pub open spec fn newest_first(s: Seq<PostView>) -> bool {
    forall|i: int, j: int| 0 <= i < j < s.len() ==> s[i].timestamp >= s[j].timestamp
}

/// Dropping the likes by a user who has none leaves the list as it was.
pub proof fn lemma_filter_absent(likes: Seq<LikeView>, u: Seq<char>)
    requires
        !has_like(likes, u),
    ensures
        likes.filter(not_by(u)) == likes,
    decreases likes.len(),
{
    reveal(Seq::filter);
    if likes.len() > 0 {
        let t = likes.drop_last();
        if has_like(t, u) {
            let k = choose|k: int| 0 <= k < t.len() && #[trigger] t[k].user_id == u;
            assert(likes[k].user_id == u);
        }
        lemma_filter_absent(t, u);
        assert(likes.last().user_id != u) by {
            assert(likes[likes.len() - 1] == likes.last());
        }
        assert(t.push(likes.last()) =~= likes);
    }
}

/// Every key of `m` is the decimal form of a number in `1..=counter`.
pub open spec fn drawn_from_counter<V>(m: Map<Seq<char>, V>, counter: u64) -> bool {
    forall|k: Seq<char>|
        #[trigger] m.contains_key(k) ==> exists|n: nat| 1 <= n <= counter && k == decimal(n)
}

/// The whole state: users, posts, the public-key index, both follow lists,
/// the two id counters, and the events not yet handed to the host.
pub struct SocialNetwork {
    users: Vec<User>,
    posts: Vec<Post>,
    post_counter: u64,
    user_counter: u64,
    public_key_to_user_id: Vec<(String, String)>,
    followers: Vec<(String, Vec<String>)>,
    following: Vec<(String, Vec<String>)>,
    events: Vec<Event>,
}

impl SocialNetwork {
    /// Users by id.
    pub closed spec fn users_map(&self) -> Map<Seq<char>, UserView> {
        to_map(user_entries(self.users@))
    }

    /// Posts by id.
    pub closed spec fn posts_map(&self) -> Map<Seq<char>, PostView> {
        to_map(post_entries(self.posts@))
    }

    /// User ids by bound public key.
    pub closed spec fn keys_map(&self) -> Map<Seq<char>, Seq<char>> {
        to_map(key_entries(self.public_key_to_user_id@))
    }

    /// For each user id, the ids of those who follow that user.
    pub closed spec fn followers_map(&self) -> Map<Seq<char>, Seq<Seq<char>>> {
        to_map(list_entries(self.followers@))
    }

    /// For each user id, the ids of those whom that user follows.
    pub closed spec fn following_map(&self) -> Map<Seq<char>, Seq<Seq<char>>> {
        to_map(list_entries(self.following@))
    }

    /// Who follows `id`.
    pub closed spec fn followers_of(&self, id: Seq<char>) -> Seq<Seq<char>> {
        list_of(self.followers_map(), id)
    }

    /// Whom `id` follows.
    pub closed spec fn following_of(&self, id: Seq<char>) -> Seq<Seq<char>> {
        list_of(self.following_map(), id)
    }

    /// The events emitted so far and not yet taken.
    pub closed spec fn events_view(&self) -> Seq<EventView> {
        self.events@.map_values(|e: Event| e@)
    }

    /// Every stored post, once each.
    pub closed spec fn all_posts(&self) -> Multiset<PostView> {
        post_views(self.posts@).to_multiset()
    }

    /// The user counter: how many users were ever created.
    pub closed spec fn user_count_spec(&self) -> u64 {
        self.user_counter
    }

    /// The post counter: how many posts were ever created.
    pub closed spec fn post_count_spec(&self) -> u64 {
        self.post_counter
    }

    /// The state's invariant: every table has unique keys, ids come from the
    /// counters, and the two follow lists describe the same edges.
    pub closed spec fn wf(&self) -> bool {
        &&& unique_keys(user_entries(self.users@))
        &&& unique_keys(post_entries(self.posts@))
        &&& unique_keys(key_entries(self.public_key_to_user_id@))
        &&& unique_keys(list_entries(self.followers@))
        &&& unique_keys(list_entries(self.following@))
        &&& drawn_from_counter(self.users_map(), self.user_counter)
        &&& drawn_from_counter(self.posts_map(), self.post_counter)
        &&& self.edges_agree()
        &&& all_likers_unique(self.posts_map())
    }

    /// `a` follows `b` according to one list exactly when it does according to the other.
    pub closed spec fn edges_agree(&self) -> bool {
        forall|a: Seq<char>, b: Seq<char>|
            #[trigger] self.followers_of(b).contains(a) <==> #[trigger] self.following_of(
                a,
            ).contains(b)
    }

    /// Drawing the next number keeps every key drawn from the counter.
    proof fn lemma_drawn_insert<V>(m: Map<Seq<char>, V>, c: u64, v: V)
        requires
            drawn_from_counter(m, c),
            c < u64::MAX,
        ensures
            drawn_from_counter(m.insert(decimal(c as nat + 1), v), (c + 1) as u64),
    {
        let m2 = m.insert(decimal(c as nat + 1), v);
        assert forall|k: Seq<char>| #[trigger] m2.contains_key(k) implies exists|n: nat|
            1 <= n <= c + 1 && k == decimal(n) by {
            if k != decimal(c as nat + 1) {
                let n = choose|n: nat| 1 <= n <= c && k == decimal(n);
                assert(1 <= n <= c + 1 && k == decimal(n));
            } else {
                assert(1 <= c + 1 <= c + 1 && k == decimal(c as nat + 1));
            }
        }
    }

    /// The edge invariant depends on the follow lists alone.
    proof fn lemma_edges_frame(a: &Self, b: &Self)
        requires
            a.edges_agree(),
            a.followers_map() == b.followers_map(),
            a.following_map() == b.following_map(),
        ensures
            b.edges_agree(),
    {
        assert forall|x: Seq<char>, y: Seq<char>|
            #[trigger] b.followers_of(y).contains(x) <==> #[trigger] b.following_of(x).contains(
                y,
            ) by {
            assert(b.followers_of(y) == a.followers_of(y));
            assert(b.following_of(x) == a.following_of(x));
        }
    }

    /// An empty network: no users, no posts, no edges, both counters at zero.
    pub fn init() -> (r: SocialNetwork)
        ensures
            r.wf(),
            r.users_map() == Map::<Seq<char>, UserView>::empty(),
            r.posts_map() == Map::<Seq<char>, PostView>::empty(),
            r.keys_map() == Map::<Seq<char>, Seq<char>>::empty(),
            r.followers_map() == Map::<Seq<char>, Seq<Seq<char>>>::empty(),
            r.following_map() == Map::<Seq<char>, Seq<Seq<char>>>::empty(),
            r.user_count_spec() == 0,
            r.post_count_spec() == 0,
            r.events_view() == Seq::<EventView>::empty(),
    {
        let r = SocialNetwork {
            users: Vec::new(),
            posts: Vec::new(),
            post_counter: 0,
            user_counter: 0,
            public_key_to_user_id: Vec::new(),
            followers: Vec::new(),
            following: Vec::new(),
            events: Vec::new(),
        };
        assert(r.events_view() =~= Seq::<EventView>::empty());
        r
    }

    /// Where the user `id` stands, if it exists.
    fn find_user(&self, id: &String) -> (r: Option<usize>)
        requires
            self.wf(),
        ensures
            match r {
                Some(i) => i < self.users@.len() && self.users@[i as int].id@ == id@
                    && self.users_map().contains_key(id@) && self.users_map()[id@]
                    == self.users@[i as int]@,
                None => !self.users_map().contains_key(id@),
            },
    {
        let r = position(&self.users, id);
        proof {
            let s = user_entries(self.users@);
            match r {
                Some(i) => {
                    lemma_to_map_lookup(s, i as int);
                },
                None => {
                    lemma_to_map_domain(s, id@);
                    if self.users_map().contains_key(id@) {
                        let j = choose|j: int| 0 <= j < s.len() && s[j].0 == id@;
                        assert(self.users@[j].key_view() == id@);
                    }
                },
            }
        }
        r
    }

    /// Where the post `id` stands, if it exists.
    fn find_post(&self, id: &String) -> (r: Option<usize>)
        requires
            self.wf(),
        ensures
            match r {
                Some(i) => i < self.posts@.len() && self.posts@[i as int].id@ == id@
                    && self.posts_map().contains_key(id@) && self.posts_map()[id@]
                    == self.posts@[i as int]@,
                None => !self.posts_map().contains_key(id@),
            },
    {
        let r = position(&self.posts, id);
        proof {
            let s = post_entries(self.posts@);
            match r {
                Some(i) => {
                    lemma_to_map_lookup(s, i as int);
                },
                None => {
                    lemma_to_map_domain(s, id@);
                    if self.posts_map().contains_key(id@) {
                        let j = choose|j: int| 0 <= j < s.len() && s[j].0 == id@;
                        assert(self.posts@[j].key_view() == id@);
                    }
                },
            }
        }
        r
    }

    /// The next number of a counter names no key drawn from it so far.
    proof fn lemma_fresh_id<V>(m: Map<Seq<char>, V>, c: u64)
        requires
            drawn_from_counter(m, c),
            c < u64::MAX,
        ensures
            !m.contains_key(decimal(c as nat + 1)),
    {
        if m.contains_key(decimal(c as nat + 1)) {
            let n = choose|n: nat| 1 <= n <= c && decimal(c as nat + 1) == #[trigger] decimal(n);
            lemma_decimal_injective(n, c as nat + 1);
        }
    }

    /// What `create_user` does: `r` is its result, `before` and `after` the state before and after.
    pub open spec fn user_created(
        before: SocialNetwork,
        after: SocialNetwork,
        name: Seq<char>,
        avatar: Seq<char>,
        bio: Seq<char>,
        public_key: Seq<char>,
        wallet_address: Option<Seq<char>>,
        r: Result<User, Error>,
    ) -> bool {
        match r {
            Ok(u) => {
                &&& !before.keys_map().contains_key(public_key)
                &&& u@ == (UserView {
                    id: decimal(before.user_count_spec() as nat + 1),
                    name: name,
                    avatar: avatar,
                    bio: bio,
                    wallet_address: wallet_address,
                })
                &&& !before.users_map().contains_key(u.id@)
                &&& after.users_map() == before.users_map().insert(u.id@, u@)
                &&& after.keys_map() == before.keys_map().insert(public_key, u.id@)
                &&& after.user_count_spec() == before.user_count_spec() + 1
                &&& after.post_count_spec() == before.post_count_spec()
                &&& after.posts_map() == before.posts_map()
                &&& after.followers_map() == before.followers_map()
                &&& after.following_map() == before.following_map()
                &&& after.events_view() == before.events_view().push(
                    EventView::UserCreated { id: u.id@, name: name },
                )
            },
            Err(e) => {
                &&& before.keys_map().contains_key(public_key)
                &&& e@ == ErrorView::PublicKeyTaken(public_key)
                &&& after == before
            },
        }
    }

    /// Registers a user under the next user id and binds `public_key` to it.
    /// Fails, changing nothing, where the key is already bound.
    pub fn create_user(
        &mut self,
        name: String,
        avatar: String,
        bio: String,
        public_key: String,
        wallet_address: Option<String>,
    ) -> (r: Result<User, Error>)
        requires
            old(self).wf(),
            old(self).user_count_spec() < u64::MAX,
        ensures
            final(self).wf(),
            Self::user_created(
                *old(self),
                *final(self),
                name@,
                avatar@,
                bio@,
                public_key@,
                opt_view(wallet_address),
                r,
            ),
    {
        let found = position(&self.public_key_to_user_id, &public_key);
        proof {
            let s = key_entries(self.public_key_to_user_id@);
            lemma_to_map_domain(s, public_key@);
            if let Some(i) = found {
                assert(s[i as int].0 == public_key@);
            } else {
                if self.keys_map().contains_key(public_key@) {
                    let j = choose|j: int| 0 <= j < s.len() && s[j].0 == public_key@;
                    assert(self.public_key_to_user_id@[j].key_view() == public_key@);
                }
            }
        }
        if found.is_some() {
            return Err(Error::PublicKeyTaken(public_key));
        }
        proof {
            Self::lemma_fresh_id(self.users_map(), self.user_counter);
        }
        let ghost old_self = *self;
        self.user_counter = self.user_counter + 1;
        let id = decimal_string(self.user_counter);
        let user = User {
            id: id.clone(),
            name: name.clone(),
            avatar,
            bio,
            wallet_address,
        };
        self.events.push(Event::UserCreated { id: id.clone(), name });
        let result = user.duplicate();
        self.users.push(user);
        self.public_key_to_user_id.push((public_key, id));
        proof {
            let us = user_entries(old_self.users@);
            let ks = key_entries(old_self.public_key_to_user_id@);
            assert(user_entries(self.users@) =~= us.push((result.id@, result@)));
            assert(key_entries(self.public_key_to_user_id@) =~= ks.push((public_key@, result.id@)));
            lemma_to_map_push(us, (result.id@, result@));
            lemma_to_map_push(ks, (public_key@, result.id@));
            lemma_to_map_domain(us, result.id@);
            lemma_to_map_domain(ks, public_key@);
            assert(self.events_view() =~= old_self.events_view().push(
                EventView::UserCreated { id: result.id@, name: name@ },
            ));
            assert forall|k: Seq<char>| #[trigger] self.users_map().contains_key(k) implies exists|
                n: nat,
            | 1 <= n <= self.user_counter && k == decimal(n) by {
                if k != result.id@ {
                    assert(old_self.users_map().contains_key(k));
                    let n = choose|n: nat| 1 <= n <= old_self.user_counter && k == decimal(n);
                    assert(1 <= n <= self.user_counter && k == decimal(n));
                } else {
                    assert(k == decimal(self.user_counter as nat));
                }
            }
            assert(unique_keys(user_entries(self.users@)));
            assert(unique_keys(key_entries(self.public_key_to_user_id@)));
            Self::lemma_edges_frame(&old_self, self);
        }
        Ok(result)
    }

    /// What `create_post_at` does: `r` is its result, `before` and `after` the state before and after.
    pub open spec fn post_created(
        before: SocialNetwork,
        after: SocialNetwork,
        author_id: Seq<char>,
        content: Seq<char>,
        now: u64,
        r: Result<Post, Error>,
    ) -> bool {
        match r {
            Ok(p) => {
                let author = before.users_map()[author_id];
                &&& before.users_map().contains_key(author_id)
                &&& p@ == (PostView {
                    id: decimal(before.post_count_spec() as nat + 1),
                    author_id: author_id,
                    author_name: author.name,
                    author_avatar: author.avatar,
                    content: content,
                    timestamp: now,
                    likes: Seq::empty(),
                    tips: Seq::empty(),
                    author_wallet_address: author.wallet_address,
                })
                &&& !before.posts_map().contains_key(p.id@)
                &&& after.posts_map() == before.posts_map().insert(p.id@, p@)
                &&& after.post_count_spec() == before.post_count_spec() + 1
                &&& after.user_count_spec() == before.user_count_spec()
                &&& after.users_map() == before.users_map()
                &&& after.keys_map() == before.keys_map()
                &&& after.followers_map() == before.followers_map()
                &&& after.following_map() == before.following_map()
                &&& after.events_view() == before.events_view().push(
                    EventView::PostCreated {
                        id: p.id@,
                        author_id: author_id,
                        content: content,
                        timestamp: now,
                    },
                )
            },
            Err(e) => {
                &&& !before.users_map().contains_key(author_id)
                &&& e@ == ErrorView::UserNotFound(author_id)
                &&& after == before
            },
        }
    }

    /// Publishes a post by `author_id` under the next post id, stamped `now`,
    /// with the author's current name, avatar and wallet copied into it.
    /// Fails, changing nothing, where the author does not exist.
    pub fn create_post_at(&mut self, author_id: String, content: String, now: u64) -> (r: Result<
        Post,
        Error,
    >)
        requires
            old(self).wf(),
            old(self).post_count_spec() < u64::MAX,
        ensures
            final(self).wf(),
            Self::post_created(*old(self), *final(self), author_id@, content@, now, r),
    {
        let found = self.find_user(&author_id);
        let ai = match found {
            Some(i) => i,
            None => {
                return Err(Error::UserNotFound(author_id));
            },
        };
        proof {
            Self::lemma_fresh_id(self.posts_map(), self.post_counter);
        }
        let ghost old_self = *self;
        self.post_counter = self.post_counter + 1;
        let id = decimal_string(self.post_counter);
        let post = Post {
            id: id.clone(),
            author_id: author_id.clone(),
            author_name: self.users[ai].name.clone(),
            author_avatar: self.users[ai].avatar.clone(),
            content: content.clone(),
            timestamp: now,
            likes: Vec::new(),
            tips: Vec::new(),
            author_wallet_address: copy_opt(&self.users[ai].wallet_address),
        };
        self.events.push(Event::PostCreated { id, author_id, content, timestamp: now });
        let result = post.duplicate();
        self.posts.push(post);
        proof {
            let ps = post_entries(old_self.posts@);
            assert(post_entries(self.posts@) =~= ps.push((result.id@, result@)));
            lemma_push_fresh(ps, (result.id@, result@));
            Self::lemma_drawn_insert(old_self.posts_map(), old_self.post_counter, result@);
            assert(result@.likes =~= Seq::<LikeView>::empty());
            assert(result@.tips =~= Seq::<TipView>::empty());
            assert(self.events_view() =~= old_self.events_view().push(
                EventView::PostCreated {
                    id: result.id@,
                    author_id: author_id@,
                    content: content@,
                    timestamp: now,
                },
            ));
            Self::lemma_edges_frame(&old_self, self);
        }
        Ok(result)
    }

    /// Publishes a post stamped with the host's current time; see `create_post_at`.
    pub fn create_post(&mut self, author_id: String, content: String) -> (r: Result<Post, Error>)
        requires
            old(self).wf(),
            old(self).post_count_spec() < u64::MAX,
        ensures
            final(self).wf(),
            exists|now: u64| #[trigger]
                Self::post_created(*old(self), *final(self), author_id@, content@, now, r),
    {
        let now = time_now();
        self.create_post_at(author_id, content, now)
    }

    /// Rewrites a user's name, bio and wallet, and the author name on each of
    /// their posts. Fails, changing nothing, where the user does not exist.
    pub fn update_user(
        &mut self,
        user_id: String,
        name: String,
        bio: String,
        wallet_address: Option<String>,
    ) -> (r: Result<User, Error>)
        requires
            old(self).wf(),
        ensures
            final(self).wf(),
            match r {
                Ok(u) => {
                    &&& old(self).users_map().contains_key(user_id@)
                    &&& u@ == (UserView {
                        id: user_id@,
                        name: name@,
                        avatar: old(self).users_map()[user_id@].avatar,
                        bio: bio@,
                        wallet_address: opt_view(wallet_address),
                    })
                    &&& final(self).users_map() == old(self).users_map().insert(user_id@, u@)
                    &&& final(self).posts_map() == old(self).posts_map().map_values(
                        |p: PostView| renamed(p, user_id@, name@),
                    )
                    &&& final(self).user_count_spec() == old(self).user_count_spec()
                    &&& final(self).post_count_spec() == old(self).post_count_spec()
                    &&& final(self).keys_map() == old(self).keys_map()
                    &&& final(self).followers_map() == old(self).followers_map()
                    &&& final(self).following_map() == old(self).following_map()
                    &&& final(self).events_view() == old(self).events_view().push(
                        EventView::UserUpdated { id: user_id@, name: name@, bio: bio@ },
                    )
                },
                Err(e) => {
                    &&& !old(self).users_map().contains_key(user_id@)
                    &&& e@ == ErrorView::UserNotFound(user_id@)
                    &&& *final(self) == *old(self)
                },
            },
    {
        let found = self.find_user(&user_id);
        let ui = match found {
            Some(i) => i,
            None => {
                return Err(Error::UserNotFound(user_id));
            },
        };
        let ghost old_self = *self;
        let user = User {
            id: user_id.clone(),
            name: name.clone(),
            avatar: self.users[ui].avatar.clone(),
            bio: bio.clone(),
            wallet_address,
        };
        self.events.push(Event::UserUpdated { id: user_id.clone(), name: name.clone(), bio });
        let result = user.duplicate();
        self.users.set(ui, user);
        rename_author(&mut self.posts, &user_id, &name);
        proof {
            let us = user_entries(old_self.users@);
            assert(user_entries(self.users@) =~= us.update(ui as int, (us[ui as int].0, result@)));
            lemma_to_map_update(us, ui as int, result@);
            lemma_to_map_domain(us, user_id@);
            let f = |p: PostView| renamed(p, user_id@, name@);
            let ps = post_entries(old_self.posts@);
            let ps2 = post_entries(self.posts@);
            assert forall|i: int| 0 <= i < ps.len() implies #[trigger] ps2[i] == (ps[i].0, f(ps[i].1)) by {
                assert(self.posts@[i]@ == renamed(old_self.posts@[i]@, user_id@, name@));
            }
            lemma_to_map_values(ps, ps2, f);
            assert(self.users_map().dom() =~= old_self.users_map().dom());
            assert(self.posts_map().dom() =~= old_self.posts_map().dom());
            assert forall|k: Seq<char>| #[trigger] self.users_map().contains_key(k) implies exists|
                n: nat,
            | 1 <= n <= self.user_counter && k == decimal(n) by {
                assert(old_self.users_map().contains_key(k));
            }
            assert forall|k: Seq<char>| #[trigger] self.posts_map().contains_key(k) implies exists|
                n: nat,
            | 1 <= n <= self.post_counter && k == decimal(n) by {
                assert(old_self.posts_map().contains_key(k));
            }
            assert(self.events_view() =~= old_self.events_view().push(
                EventView::UserUpdated { id: user_id@, name: name@, bio: bio@ },
            ));
            Self::lemma_edges_frame(&old_self, self);
        }
        Ok(result)
    }

    /// Puts `p` in place of the post at `i`, which has the same id.
    fn store_post(&mut self, i: usize, p: Post)
        requires
            old(self).wf(),
            i < old(self).posts@.len(),
            p.id@ == old(self).posts@[i as int].id@,
            likers_unique(p@.likes),
        ensures
            final(self).wf(),
            final(self).posts_map() == old(self).posts_map().insert(p.id@, p@),
            old(self).posts_map().contains_key(p.id@),
            final(self).users_map() == old(self).users_map(),
            final(self).keys_map() == old(self).keys_map(),
            final(self).followers_map() == old(self).followers_map(),
            final(self).following_map() == old(self).following_map(),
            final(self).user_count_spec() == old(self).user_count_spec(),
            final(self).post_count_spec() == old(self).post_count_spec(),
            final(self).events_view() == old(self).events_view(),
    {
        let ghost old_self = *self;
        let ghost pv = p@;
        let ghost pid = p.id@;
        self.posts.set(i, p);
        proof {
            let ps = post_entries(old_self.posts@);
            assert(post_entries(self.posts@) =~= ps.update(i as int, (ps[i as int].0, pv)));
            lemma_to_map_update(ps, i as int, pv);
            lemma_to_map_lookup(ps, i as int);
            assert(self.posts_map().dom() =~= old_self.posts_map().dom());
            assert forall|k: Seq<char>| #[trigger] self.posts_map().contains_key(k) implies exists|
                n: nat,
            | 1 <= n <= self.post_counter && k == decimal(n) by {
                assert(old_self.posts_map().contains_key(k));
            }
            assert forall|k: Seq<char>| #[trigger] self.posts_map().contains_key(k) implies likers_unique(
                self.posts_map()[k].likes,
            ) by {
                if k != pid {
                    assert(old_self.posts_map().contains_key(k));
                }
            }
            Self::lemma_edges_frame(&old_self, self);
        }
    }

    /// What `like_post_at` does: `r` is its result, `before` and `after` the state before and after.
    pub open spec fn post_liked(
        before: SocialNetwork,
        after: SocialNetwork,
        post_id: Seq<char>,
        user_id: Seq<char>,
        now: u64,
        r: Result<Post, Error>,
    ) -> bool {
        let post = before.posts_map()[post_id];
        let user = before.users_map()[user_id];
        match r {
            Ok(p) => {
                &&& before.posts_map().contains_key(post_id)
                &&& before.users_map().contains_key(user_id)
                &&& if has_like(post.likes, user_id) {
                    p@ == post && after == before
                } else {
                    let like = LikeView { user_id: user_id, user_name: user.name, timestamp: now };
                    &&& p@ == (PostView { likes: post.likes.push(like), ..post })
                    &&& after.posts_map() == before.posts_map().insert(post_id, p@)
                    &&& after.users_map() == before.users_map()
                    &&& after.keys_map() == before.keys_map()
                    &&& after.followers_map() == before.followers_map()
                    &&& after.following_map() == before.following_map()
                    &&& after.user_count_spec() == before.user_count_spec()
                    &&& after.post_count_spec() == before.post_count_spec()
                    &&& after.events_view() == before.events_view().push(
                        EventView::PostLiked { id: post_id, user_id: user_id, user_name: user.name },
                    )
                }
            },
            Err(e) => {
                &&& after == before
                &&& if !before.posts_map().contains_key(post_id) {
                    e@ == ErrorView::PostNotFound(post_id)
                } else {
                    !before.users_map().contains_key(user_id) && e@ == ErrorView::UserNotFound(
                        user_id,
                    )
                }
            },
        }
    }

    /// Adds a like by `user_id`, stamped `now` and carrying the user's current
    /// name, unless the user already likes the post; then nothing changes.
    pub fn like_post_at(&mut self, post_id: String, user_id: String, now: u64) -> (r: Result<
        Post,
        Error,
    >)
        requires
            old(self).wf(),
        ensures
            final(self).wf(),
            Self::post_liked(*old(self), *final(self), post_id@, user_id@, now, r),
    {
        let pi = match self.find_post(&post_id) {
            Some(i) => i,
            None => {
                return Err(Error::PostNotFound(post_id));
            },
        };
        let ui = match self.find_user(&user_id) {
            Some(i) => i,
            None => {
                return Err(Error::UserNotFound(user_id));
            },
        };
        if liked_by(&self.posts[pi].likes, &user_id) {
            return Ok(self.posts[pi].duplicate());
        }
        let ghost old_self = *self;
        let mut post = self.posts[pi].duplicate();
        let user_name = self.users[ui].name.clone();
        let ghost old_likes = post@.likes;
        post.likes.push(Like { user_id: user_id.clone(), user_name: user_name.clone(), timestamp: now });
        proof {
            let like = LikeView { user_id: user_id@, user_name: user_name@, timestamp: now };
            assert(post@.likes =~= old_likes.push(like));
            assert forall|i: int, j: int| 0 <= i < j < post@.likes.len() implies post@.likes[i].user_id
                != post@.likes[j].user_id by {
                if j == old_likes.len() {
                    assert(post@.likes[i] == old_likes[i]);
                    if old_likes[i].user_id == user_id@ {
                        assert(has_like(old_likes, user_id@));
                    }
                } else {
                    assert(post@.likes[i] == old_likes[i] && post@.likes[j] == old_likes[j]);
                }
            }
        }
        let result = post.duplicate();
        self.store_post(pi, post);
        let ghost stored = *self;
        self.events.push(Event::PostLiked { id: post_id, user_id, user_name });
        proof {
            Self::lemma_edges_frame(&stored, self);
            assert(self.events_view() =~= old_self.events_view().push(
                EventView::PostLiked {
                    id: post_id@,
                    user_id: user_id@,
                    user_name: old_self.users_map()[user_id@].name,
                },
            ));
        }
        Ok(result)
    }

    /// Likes a post with the host's current time as the stamp; see `like_post_at`.
    pub fn like_post(&mut self, post_id: String, user_id: String) -> (r: Result<Post, Error>)
        requires
            old(self).wf(),
        ensures
            final(self).wf(),
            exists|now: u64| #[trigger]
                Self::post_liked(*old(self), *final(self), post_id@, user_id@, now, r),
    {
        let now = time_now();
        self.like_post_at(post_id, user_id, now)
    }

    /// What `unlike_post` does: `r` is its result, `before` and `after` the state before and after.
    pub open spec fn post_unliked(
        before: SocialNetwork,
        after: SocialNetwork,
        post_id: Seq<char>,
        user_id: Seq<char>,
        r: Result<Post, Error>,
    ) -> bool {
        let post = before.posts_map()[post_id];
        match r {
            Ok(p) => {
                &&& before.posts_map().contains_key(post_id)
                &&& p@ == (PostView { likes: post.likes.filter(not_by(user_id)), ..post })
                &&& after.posts_map() == before.posts_map().insert(post_id, p@)
                &&& after.users_map() == before.users_map()
                &&& after.keys_map() == before.keys_map()
                &&& after.followers_map() == before.followers_map()
                &&& after.following_map() == before.following_map()
                &&& after.user_count_spec() == before.user_count_spec()
                &&& after.post_count_spec() == before.post_count_spec()
                &&& after.events_view() == before.events_view().push(
                    EventView::PostUnliked { id: post_id, user_id: user_id },
                )
            },
            Err(e) => {
                &&& after == before
                &&& !before.posts_map().contains_key(post_id)
                &&& e@ == ErrorView::PostNotFound(post_id)
            },
        }
    }

    /// Removes any like by `user_id`; the event is emitted even where there was none.
    pub fn unlike_post(&mut self, post_id: String, user_id: String) -> (r: Result<Post, Error>)
        requires
            old(self).wf(),
        ensures
            final(self).wf(),
            Self::post_unliked(*old(self), *final(self), post_id@, user_id@, r),
    {
        let pi = match self.find_post(&post_id) {
            Some(i) => i,
            None => {
                return Err(Error::PostNotFound(post_id));
            },
        };
        let ghost old_self = *self;
        let mut post = self.posts[pi].duplicate();
        let ghost old_likes = post@.likes;
        post.likes = likes_without(&self.posts[pi].likes, &user_id);
        proof {
            lemma_filter_keeps_unique(old_likes, user_id@);
        }
        let result = post.duplicate();
        self.store_post(pi, post);
        let ghost stored = *self;
        self.events.push(Event::PostUnliked { id: post_id, user_id });
        proof {
            Self::lemma_edges_frame(&stored, self);
            assert(self.events_view() =~= old_self.events_view().push(
                EventView::PostUnliked { id: post_id@, user_id: user_id@ },
            ));
        }
        Ok(result)
    }

    /// Whether `user_id` likes the post; fails where the post does not exist.
    pub fn check_user_liked_post(&self, post_id: String, user_id: String) -> (r: Result<bool, Error>)
        requires
            self.wf(),
        ensures
            match r {
                Ok(b) => self.posts_map().contains_key(post_id@) && b == has_like(
                    self.posts_map()[post_id@].likes,
                    user_id@,
                ),
                Err(e) => !self.posts_map().contains_key(post_id@) && e@ == ErrorView::PostNotFound(
                    post_id@,
                ),
            },
    {
        match self.find_post(&post_id) {
            Some(i) => Ok(liked_by(&self.posts[i].likes, &user_id)),
            None => Err(Error::PostNotFound(post_id)),
        }
    }

    /// What `record_tip_at` does: `r` is its result, `before` and `after` the state before and after.
    pub open spec fn tip_recorded(
        before: SocialNetwork,
        after: SocialNetwork,
        post_id: Seq<char>,
        user_id: Seq<char>,
        amount_usdc: Seq<char>,
        tx_hash: Seq<char>,
        now: u64,
        r: Result<Post, Error>,
    ) -> bool {
        let post = before.posts_map()[post_id];
        let user = before.users_map()[user_id];
        match r {
            Ok(p) => {
                let tip = TipView {
                    user_id: user_id,
                    user_name: user.name,
                    amount_usdc: amount_usdc,
                    timestamp: now,
                    tx_hash: tx_hash,
                };
                &&& before.posts_map().contains_key(post_id)
                &&& before.users_map().contains_key(user_id)
                &&& p@ == (PostView { tips: post.tips.push(tip), ..post })
                &&& after.posts_map() == before.posts_map().insert(post_id, p@)
                &&& after.users_map() == before.users_map()
                &&& after.keys_map() == before.keys_map()
                &&& after.followers_map() == before.followers_map()
                &&& after.following_map() == before.following_map()
                &&& after.user_count_spec() == before.user_count_spec()
                &&& after.post_count_spec() == before.post_count_spec()
                &&& after.events_view() == before.events_view().push(
                    EventView::TipSent {
                        post_id: post_id,
                        tipper_id: user_id,
                        tipper_name: user.name,
                        amount_usdc: amount_usdc,
                        tx_hash: tx_hash,
                    },
                )
            },
            Err(e) => {
                &&& after == before
                &&& if !before.posts_map().contains_key(post_id) {
                    e@ == ErrorView::PostNotFound(post_id)
                } else {
                    !before.users_map().contains_key(user_id) && e@ == ErrorView::UserNotFound(
                        user_id,
                    )
                }
            },
        }
    }

    /// Appends a tip by `user_id`, stamped `now`; every tip is kept, repeats included.
    pub fn record_tip_at(
        &mut self,
        post_id: String,
        user_id: String,
        amount_usdc: String,
        tx_hash: String,
        now: u64,
    ) -> (r: Result<Post, Error>)
        requires
            old(self).wf(),
        ensures
            final(self).wf(),
            Self::tip_recorded(
                *old(self),
                *final(self),
                post_id@,
                user_id@,
                amount_usdc@,
                tx_hash@,
                now,
                r,
            ),
    {
        let pi = match self.find_post(&post_id) {
            Some(i) => i,
            None => {
                return Err(Error::PostNotFound(post_id));
            },
        };
        let ui = match self.find_user(&user_id) {
            Some(i) => i,
            None => {
                return Err(Error::UserNotFound(user_id));
            },
        };
        let ghost old_self = *self;
        let mut post = self.posts[pi].duplicate();
        let user_name = self.users[ui].name.clone();
        let ghost old_tips = post@.tips;
        post.tips.push(
            Tip {
                user_id: user_id.clone(),
                user_name: user_name.clone(),
                amount_usdc: amount_usdc.clone(),
                timestamp: now,
                tx_hash: tx_hash.clone(),
            },
        );
        proof {
            let tip = TipView {
                user_id: user_id@,
                user_name: user_name@,
                amount_usdc: amount_usdc@,
                timestamp: now,
                tx_hash: tx_hash@,
            };
            assert(post@.tips =~= old_tips.push(tip));
        }
        let result = post.duplicate();
        self.store_post(pi, post);
        let ghost stored = *self;
        self.events.push(
            Event::TipSent {
                post_id,
                tipper_id: user_id,
                tipper_name: user_name,
                amount_usdc,
                tx_hash,
            },
        );
        proof {
            Self::lemma_edges_frame(&stored, self);
            assert(self.events_view() =~= old_self.events_view().push(
                EventView::TipSent {
                    post_id: post_id@,
                    tipper_id: user_id@,
                    tipper_name: old_self.users_map()[user_id@].name,
                    amount_usdc: amount_usdc@,
                    tx_hash: tx_hash@,
                },
            ));
        }
        Ok(result)
    }

    /// Records a tip stamped with the host's current time; see `record_tip_at`.
    pub fn record_tip(
        &mut self,
        post_id: String,
        user_id: String,
        amount_usdc: String,
        tx_hash: String,
    ) -> (r: Result<Post, Error>)
        requires
            old(self).wf(),
        ensures
            final(self).wf(),
            exists|now: u64| #[trigger]
                Self::tip_recorded(
                    *old(self),
                    *final(self),
                    post_id@,
                    user_id@,
                    amount_usdc@,
                    tx_hash@,
                    now,
                    r,
                ),
    {
        let now = time_now();
        self.record_tip_at(post_id, user_id, amount_usdc, tx_hash, now)
    }

    /// What `delete_post` does: `r` is its result, `before` and `after` the state before and after.
    pub open spec fn post_deleted(
        before: SocialNetwork,
        after: SocialNetwork,
        post_id: Seq<char>,
        user_id: Seq<char>,
        r: Result<(), Error>,
    ) -> bool {
        let post = before.posts_map()[post_id];
        match r {
            Ok(_) => {
                &&& before.posts_map().contains_key(post_id)
                &&& post.author_id == user_id
                &&& after.posts_map() == before.posts_map().remove(post_id)
                &&& after.users_map() == before.users_map()
                &&& after.keys_map() == before.keys_map()
                &&& after.followers_map() == before.followers_map()
                &&& after.following_map() == before.following_map()
                &&& after.user_count_spec() == before.user_count_spec()
                &&& after.post_count_spec() == before.post_count_spec()
                &&& after.events_view() == before.events_view().push(
                    EventView::PostDeleted { id: post_id, author_id: user_id },
                )
            },
            Err(e) => {
                &&& after == before
                &&& if !before.posts_map().contains_key(post_id) {
                    e@ == ErrorView::PostNotFound(post_id)
                } else {
                    post.author_id != user_id && e@ == ErrorView::NotPostAuthor(post_id, user_id)
                }
            },
        }
    }

    /// Removes a post, likes and tips with it, where `user_id` is its author.
    /// The post counter keeps counting it.
    pub fn delete_post(&mut self, post_id: String, user_id: String) -> (r: Result<(), Error>)
        requires
            old(self).wf(),
        ensures
            final(self).wf(),
            Self::post_deleted(*old(self), *final(self), post_id@, user_id@, r),
    {
        let pi = match self.find_post(&post_id) {
            Some(i) => i,
            None => {
                return Err(Error::PostNotFound(post_id));
            },
        };
        if !self.posts[pi].author_id.eq(&user_id) {
            return Err(Error::NotPostAuthor(post_id, user_id));
        }
        let ghost old_self = *self;
        let _removed = self.posts.remove(pi);
        proof {
            let ps = post_entries(old_self.posts@);
            assert(post_entries(self.posts@) =~= ps.remove(pi as int));
            lemma_to_map_remove(ps, pi as int);
            assert forall|k: Seq<char>| #[trigger] self.posts_map().contains_key(k) implies exists|
                n: nat,
            | 1 <= n <= self.post_counter && k == decimal(n) by {
                assert(old_self.posts_map().contains_key(k));
            }
            assert forall|k: Seq<char>| #[trigger] self.posts_map().contains_key(k) implies likers_unique(
                self.posts_map()[k].likes,
            ) by {
                assert(old_self.posts_map().contains_key(k));
            }
        }
        self.events.push(Event::PostDeleted { id: post_id, author_id: user_id });
        proof {
            Self::lemma_edges_frame(&old_self, self);
            assert(self.events_view() =~= old_self.events_view().push(
                EventView::PostDeleted { id: post_id@, author_id: user_id@ },
            ));
        }
        Ok(())
    }

    /// What `follow_user` does: `r` is its result, `before` and `after` the state before and after.
    pub open spec fn user_followed(
        before: SocialNetwork,
        after: SocialNetwork,
        follower_id: Seq<char>,
        followee_id: Seq<char>,
        r: Result<(), Error>,
    ) -> bool {
        match r {
            Ok(_) => {
                &&& before.users_map().contains_key(follower_id)
                &&& before.users_map().contains_key(followee_id)
                &&& follower_id != followee_id
                &&& !before.followers_of(followee_id).contains(follower_id)
                &&& after.followers_map() == before.followers_map().insert(
                    followee_id,
                    before.followers_of(followee_id).push(follower_id),
                )
                &&& after.following_map() == before.following_map().insert(
                    follower_id,
                    before.following_of(follower_id).push(followee_id),
                )
                &&& after.users_map() == before.users_map()
                &&& after.posts_map() == before.posts_map()
                &&& after.keys_map() == before.keys_map()
                &&& after.user_count_spec() == before.user_count_spec()
                &&& after.post_count_spec() == before.post_count_spec()
                &&& after.events_view() == before.events_view().push(
                    EventView::UserFollowed { follower_id: follower_id, followee_id: followee_id },
                )
            },
            Err(e) => {
                &&& after == before
                &&& if !before.users_map().contains_key(follower_id) {
                    e@ == ErrorView::UserNotFound(follower_id)
                } else if !before.users_map().contains_key(followee_id) {
                    e@ == ErrorView::UserNotFound(followee_id)
                } else if follower_id == followee_id {
                    e@ == ErrorView::SelfFollow(follower_id)
                } else {
                    &&& before.followers_of(followee_id).contains(follower_id)
                    &&& e@ == ErrorView::AlreadyFollowing(follower_id, followee_id)
                }
            },
        }
    }

    /// Adds the edge from `follower_id` to `followee_id` to both lists. Fails,
    /// changing nothing, where either user is missing, on a self-follow, or
    /// where the edge is already there.
    pub fn follow_user(&mut self, follower_id: String, followee_id: String) -> (r: Result<(), Error>)
        requires
            old(self).wf(),
        ensures
            final(self).wf(),
            Self::user_followed(*old(self), *final(self), follower_id@, followee_id@, r),
    {
        if self.find_user(&follower_id).is_none() {
            return Err(Error::UserNotFound(follower_id));
        }
        if self.find_user(&followee_id).is_none() {
            return Err(Error::UserNotFound(followee_id));
        }
        if follower_id.eq(&followee_id) {
            return Err(Error::SelfFollow(follower_id));
        }
        let mut followers_list = list_at(&self.followers, &followee_id);
        if contains_string(&followers_list, &follower_id) {
            return Err(Error::AlreadyFollowing(follower_id, followee_id));
        }
        let ghost old_self = *self;
        let ghost a = follower_id@;
        let ghost b = followee_id@;
        let ghost old_fl = strings_view(followers_list@);
        followers_list.push(follower_id.clone());
        assert(strings_view(followers_list@) =~= old_fl.push(a));
        set_list(&mut self.followers, followee_id.clone(), followers_list);
        let mut following_list = list_at(&self.following, &follower_id);
        let ghost old_gl = strings_view(following_list@);
        following_list.push(followee_id.clone());
        assert(strings_view(following_list@) =~= old_gl.push(b));
        set_list(&mut self.following, follower_id.clone(), following_list);
        self.events.push(Event::UserFollowed { follower_id, followee_id });
        proof {
            assert forall|x: Seq<char>, y: Seq<char>|
                #[trigger] self.followers_of(y).contains(x) <==> #[trigger] self.following_of(
                    x,
                ).contains(y) by {
                assert(old_self.followers_of(y).contains(x) <==> old_self.following_of(x).contains(y));
                if y == b {
                    assert(self.followers_of(y) == old_fl.push(a));
                    assert(old_fl.push(a).contains(x) <==> (old_fl.contains(x) || x == a)) by {
                        if old_fl.push(a).contains(x) && x != a {
                            let k = choose|k: int| 0 <= k < old_fl.len() + 1 && old_fl.push(a)[k] == x;
                            assert(old_fl[k] == x);
                        }
                        if x == a {
                            assert(old_fl.push(a)[old_fl.len() as int] == a);
                        }
                        if old_fl.contains(x) {
                            let k = choose|k: int| 0 <= k < old_fl.len() && old_fl[k] == x;
                            assert(old_fl.push(a)[k] == x);
                        }
                    }
                } else {
                    assert(self.followers_of(y) == old_self.followers_of(y));
                }
                if x == a {
                    assert(self.following_of(x) == old_gl.push(b));
                    assert(old_gl.push(b).contains(y) <==> (old_gl.contains(y) || y == b)) by {
                        if old_gl.push(b).contains(y) && y != b {
                            let k = choose|k: int| 0 <= k < old_gl.len() + 1 && old_gl.push(b)[k] == y;
                            assert(old_gl[k] == y);
                        }
                        if y == b {
                            assert(old_gl.push(b)[old_gl.len() as int] == b);
                        }
                        if old_gl.contains(y) {
                            let k = choose|k: int| 0 <= k < old_gl.len() && old_gl[k] == y;
                            assert(old_gl.push(b)[k] == y);
                        }
                    }
                } else {
                    assert(self.following_of(x) == old_self.following_of(x));
                }
            }
            assert(self.events_view() =~= old_self.events_view().push(
                EventView::UserFollowed { follower_id: a, followee_id: b },
            ));
        }
        Ok(())
    }

    /// What `unfollow_user` does: `before` and `after` are the state before and after.
    pub open spec fn user_unfollowed(
        before: SocialNetwork,
        after: SocialNetwork,
        follower_id: Seq<char>,
        followee_id: Seq<char>,
    ) -> bool {
        &&& after.followers_map() == if before.followers_map().contains_key(followee_id) {
            before.followers_map().insert(
                followee_id,
                before.followers_of(followee_id).filter(other_than(follower_id)),
            )
        } else {
            before.followers_map()
        }
        &&& after.following_map() == if before.following_map().contains_key(follower_id) {
            before.following_map().insert(
                follower_id,
                before.following_of(follower_id).filter(other_than(followee_id)),
            )
        } else {
            before.following_map()
        }
        &&& after.users_map() == before.users_map()
        &&& after.posts_map() == before.posts_map()
        &&& after.keys_map() == before.keys_map()
        &&& after.user_count_spec() == before.user_count_spec()
        &&& after.post_count_spec() == before.post_count_spec()
        &&& after.events_view() == before.events_view().push(
            EventView::UserUnfollowed { follower_id: follower_id, followee_id: followee_id },
        )
    }

    /// Drops the edge from `follower_id` to `followee_id` from both lists where
    /// it is there. Never fails; the event is emitted in any case.
    pub fn unfollow_user(&mut self, follower_id: String, followee_id: String) -> (r: Result<
        (),
        Error,
    >)
        requires
            old(self).wf(),
        ensures
            final(self).wf(),
            r is Ok,
            Self::user_unfollowed(*old(self), *final(self), follower_id@, followee_id@),
    {
        let ghost old_self = *self;
        let ghost a = follower_id@;
        let ghost b = followee_id@;
        proof {
            lemma_to_map_domain(list_entries(self.followers@), b);
            lemma_to_map_domain(list_entries(self.following@), a);
        }
        if let Some(i) = position(&self.followers, &followee_id) {
            assert(list_entries(self.followers@)[i as int].0 == followee_id@);
            let list = list_at(&self.followers, &followee_id);
            let kept = strings_without(&list, &follower_id);
            set_list(&mut self.followers, followee_id.clone(), kept);
        } else {
            proof {
                if old_self.followers_map().contains_key(b) {
                    let j = choose|j: int| 0 <= j < list_entries(self.followers@).len() && list_entries(self.followers@)[j].0 == b;
                    assert(self.followers@[j].key_view() == b);
                }
            }
        }
        if let Some(i) = position(&self.following, &follower_id) {
            assert(list_entries(self.following@)[i as int].0 == follower_id@);
            let list = list_at(&self.following, &follower_id);
            let kept = strings_without(&list, &followee_id);
            set_list(&mut self.following, follower_id.clone(), kept);
        } else {
            proof {
                if old_self.following_map().contains_key(a) {
                    let j = choose|j: int| 0 <= j < list_entries(self.following@).len() && list_entries(self.following@)[j].0 == a;
                    assert(self.following@[j].key_view() == a);
                }
            }
        }
        self.events.push(Event::UserUnfollowed { follower_id, followee_id });
        proof {
            assert forall|x: Seq<char>, y: Seq<char>|
                #[trigger] self.followers_of(y).contains(x) <==> #[trigger] self.following_of(
                    x,
                ).contains(y) by {
                assert(old_self.followers_of(y).contains(x) <==> old_self.following_of(x).contains(y));
                lemma_other_than_contains(old_self.followers_of(y), a, x);
                lemma_other_than_contains(old_self.following_of(x), b, y);
                if y == b && old_self.followers_map().contains_key(b) {
                    assert(self.followers_of(y) == old_self.followers_of(b).filter(other_than(a)));
                } else {
                    assert(self.followers_of(y) == old_self.followers_of(y));
                }
                if x == a && old_self.following_map().contains_key(a) {
                    assert(self.following_of(x) == old_self.following_of(a).filter(other_than(b)));
                } else {
                    assert(self.following_of(x) == old_self.following_of(x));
                }
            }
            assert(self.events_view() =~= old_self.events_view().push(
                EventView::UserUnfollowed { follower_id: a, followee_id: b },
            ));
        }
        Ok(())
    }

    /// Whether `follower_id` follows `followee_id`.
    pub fn is_following(&self, follower_id: String, followee_id: String) -> (r: Result<bool, Error>)
        requires
            self.wf(),
        ensures
            r == Ok::<bool, Error>(self.following_of(follower_id@).contains(followee_id@)),
    {
        let list = list_at(&self.following, &follower_id);
        Ok(contains_string(&list, &followee_id))
    }

    /// The ids of those who follow `user_id`, in the order they followed.
    pub fn get_followers(&self, user_id: String) -> (r: Result<Vec<String>, Error>)
        requires
            self.wf(),
        ensures
            r is Ok,
            strings_view(r->Ok_0@) == self.followers_of(user_id@),
    {
        Ok(list_at(&self.followers, &user_id))
    }

    /// The ids of those whom `user_id` follows, in the order they were followed.
    pub fn get_following(&self, user_id: String) -> (r: Result<Vec<String>, Error>)
        requires
            self.wf(),
        ensures
            r is Ok,
            strings_view(r->Ok_0@) == self.following_of(user_id@),
    {
        Ok(list_at(&self.following, &user_id))
    }

    /// How many follow `user_id`.
    pub fn get_follower_count(&self, user_id: String) -> (r: Result<u64, Error>)
        requires
            self.wf(),
        ensures
            r is Ok,
            r->Ok_0 as int == self.followers_of(user_id@).len(),
    {
        let list = list_at(&self.followers, &user_id);
        Ok(list.len() as u64)
    }

    /// How many `user_id` follows.
    pub fn get_following_count(&self, user_id: String) -> (r: Result<u64, Error>)
        requires
            self.wf(),
        ensures
            r is Ok,
            r->Ok_0 as int == self.following_of(user_id@).len(),
    {
        let list = list_at(&self.following, &user_id);
        Ok(list.len() as u64)
    }

    /// The user `id`.
    pub fn get_user(&self, id: &str) -> (r: Result<User, Error>)
        requires
            self.wf(),
        ensures
            match r {
                Ok(u) => self.users_map().contains_key(id@) && u@ == self.users_map()[id@],
                Err(e) => !self.users_map().contains_key(id@) && e@ == ErrorView::UserNotFound(id@),
            },
    {
        let key = id.to_owned();
        match self.find_user(&key) {
            Some(i) => Ok(self.users[i].duplicate()),
            None => Err(Error::UserNotFound(key)),
        }
    }

    /// Every user, once each; the order carries no meaning.
    pub fn get_all_users(&self) -> (r: Result<Vec<User>, Error>)
        requires
            self.wf(),
        ensures
            r is Ok,
            unique_keys(user_entries(r->Ok_0@)),
            to_map(user_entries(r->Ok_0@)) == self.users_map(),
    {
        let mut r: Vec<User> = Vec::new();
        let mut i: usize = 0;
        while i < self.users.len()
            invariant
                i <= self.users@.len(),
                r@.len() == i,
                forall|k: int| 0 <= k < i ==> #[trigger] r@[k]@ == self.users@[k]@,
            decreases self.users@.len() - i,
        {
            r.push(self.users[i].duplicate());
            i += 1;
        }
        assert(user_entries(r@) =~= user_entries(self.users@));
        Ok(r)
    }

    /// The user bound to `public_key`. Fails where the key is unbound, or
    /// where the bound id has no user.
    pub fn get_user_by_public_key(&self, public_key: String) -> (r: Result<User, Error>)
        requires
            self.wf(),
        ensures
            match r {
                Ok(u) => {
                    &&& self.keys_map().contains_key(public_key@)
                    &&& self.users_map().contains_key(self.keys_map()[public_key@])
                    &&& u@ == self.users_map()[self.keys_map()[public_key@]]
                },
                Err(e) => if !self.keys_map().contains_key(public_key@) {
                    e@ == ErrorView::UserNotFound(public_key@)
                } else {
                    let id = self.keys_map()[public_key@];
                    !self.users_map().contains_key(id) && e@ == ErrorView::UserNotFound(id)
                },
            },
    {
        let s = &self.public_key_to_user_id;
        proof {
            lemma_to_map_domain(key_entries(s@), public_key@);
        }
        let ki = match position(s, &public_key) {
            Some(i) => i,
            None => {
                proof {
                    if self.keys_map().contains_key(public_key@) {
                        let j = choose|j: int| 0 <= j < key_entries(s@).len() && key_entries(s@)[j].0 == public_key@;
                        assert(s@[j].key_view() == public_key@);
                    }
                }
                return Err(Error::UserNotFound(public_key));
            },
        };
        proof {
            lemma_to_map_lookup(key_entries(s@), ki as int);
        }
        let user_id = s[ki].1.clone();
        match self.find_user(&user_id) {
            Some(i) => Ok(self.users[i].duplicate()),
            None => Err(Error::UserNotFound(user_id)),
        }
    }

    /// Whether `public_key` is bound to a user.
    pub fn check_public_key_registered(&self, public_key: String) -> (r: Result<bool, Error>)
        requires
            self.wf(),
        ensures
            r == Ok::<bool, Error>(self.keys_map().contains_key(public_key@)),
    {
        let s = &self.public_key_to_user_id;
        proof {
            lemma_to_map_domain(key_entries(s@), public_key@);
        }
        match position(s, &public_key) {
            Some(i) => {
                assert(key_entries(s@)[i as int].0 == public_key@);
                Ok(true)
            },
            None => {
                proof {
                    if self.keys_map().contains_key(public_key@) {
                        let j = choose|j: int| 0 <= j < key_entries(s@).len() && key_entries(s@)[j].0 == public_key@;
                        assert(s@[j].key_view() == public_key@);
                    }
                }
                Ok(false)
            },
        }
    }

    /// The post `id`.
    pub fn get_post(&self, id: &str) -> (r: Result<Post, Error>)
        requires
            self.wf(),
        ensures
            match r {
                Ok(p) => self.posts_map().contains_key(id@) && p@ == self.posts_map()[id@],
                Err(e) => !self.posts_map().contains_key(id@) && e@ == ErrorView::PostNotFound(id@),
            },
    {
        let key = id.to_owned();
        match self.find_post(&key) {
            Some(i) => Ok(self.posts[i].duplicate()),
            None => Err(Error::PostNotFound(key)),
        }
    }

    /// Every post, newest first; posts with equal timestamps keep the order in
    /// which they were created.
    pub fn get_all_posts(&self) -> (r: Result<Vec<Post>, Error>)
        requires
            self.wf(),
        ensures
            r is Ok,
            post_views(r->Ok_0@).to_multiset() == self.all_posts(),
            newest_first(post_views(r->Ok_0@)),
    {
        let mut r: Vec<Post> = Vec::new();
        let mut i: usize = 0;
        assert(post_views(r@) =~= post_views(self.posts@.subrange(0, 0)));
        while i < self.posts.len()
            invariant
                i <= self.posts@.len(),
                post_views(r@).to_multiset() == post_views(self.posts@.subrange(0, i as int)).to_multiset(),
                newest_first(post_views(r@)),
            decreases self.posts@.len() - i,
        {
            let t = self.posts[i].timestamp;
            let mut p: usize = 0;
            while p < r.len() && r[p].timestamp >= t
                invariant
                    p <= r@.len(),
                    forall|k: int| 0 <= k < p ==> #[trigger] r@[k].timestamp >= t,
                decreases r@.len() - p,
            {
                p += 1;
            }
            let ghost before = post_views(r@);
            let x = self.posts[i].duplicate();
            let ghost xv = x@;
            r.insert(p, x);
            proof {
                assert(post_views(r@) =~= before.insert(p as int, xv));
                assert(post_views(self.posts@.subrange(0, i + 1)) =~= post_views(
                    self.posts@.subrange(0, i as int),
                ).push(xv));
                to_multiset_insert(before, p as int, xv);
                to_multiset_build(post_views(self.posts@.subrange(0, i as int)), xv);
                let rv = post_views(r@);
                assert forall|a: int, b: int| 0 <= a < b < rv.len() implies rv[a].timestamp
                    >= rv[b].timestamp by {
                    if p < before.len() {
                        assert(before[p as int].timestamp < t);
                    }
                    if a < p && b == p {
                        assert(before[a].timestamp >= t);
                    } else if a == p && b > p {
                        assert(rv[b] == before[b - 1]);
                        assert(before[b - 1].timestamp <= before[p as int].timestamp);
                    } else if a < p {
                        assert(rv[a] == before[a]);
                    } else {
                        assert(rv[a] == before[a - 1] && rv[b] == before[b - 1]);
                    }
                }
            }
            i += 1;
        }
        assert(self.posts@.subrange(0, self.posts@.len() as int) =~= self.posts@);
        Ok(r)
    }

    /// How many posts were ever created; deleted ones still count.
    pub fn get_post_count(&self) -> (r: Result<u64, Error>)
        ensures
            r == Ok::<u64, Error>(self.post_count_spec()),
    {
        Ok(self.post_counter)
    }

    /// How many users were ever created.
    pub fn get_user_count(&self) -> (r: u64)
        ensures
            r == self.user_count_spec(),
    {
        self.user_counter
    }

    /// The events emitted and not yet taken, oldest first.
    pub fn events(&self) -> (r: &Vec<Event>)
        ensures
            r@.map_values(|e: Event| e@) == self.events_view(),
    {
        &self.events
    }

    /// Hands the pending events to the host, oldest first, and forgets them.
    pub fn take_events(&mut self) -> (r: Vec<Event>)
        requires
            old(self).wf(),
        ensures
            final(self).wf(),
            r@.map_values(|e: Event| e@) == old(self).events_view(),
            final(self).events_view() == Seq::<EventView>::empty(),
            final(self).users_map() == old(self).users_map(),
            final(self).posts_map() == old(self).posts_map(),
            final(self).keys_map() == old(self).keys_map(),
            final(self).followers_map() == old(self).followers_map(),
            final(self).following_map() == old(self).following_map(),
            final(self).user_count_spec() == old(self).user_count_spec(),
            final(self).post_count_spec() == old(self).post_count_spec(),
    {
        let ghost old_self = *self;
        let mut r: Vec<Event> = Vec::new();
        std::mem::swap(&mut r, &mut self.events);
        proof {
            assert(self.events_view() =~= Seq::<EventView>::empty());
            Self::lemma_edges_frame(&old_self, self);
        }
        r
    }

    /// A user registered right after another gets the next id, which no user had.
    pub proof fn lemma_user_ids_in_order(
        s0: SocialNetwork,
        s1: SocialNetwork,
        name: Seq<char>,
        avatar: Seq<char>,
        bio: Seq<char>,
        public_key: Seq<char>,
        wallet_address: Option<Seq<char>>,
        r: Result<User, Error>,
    )
        requires
            Self::user_created(s0, s1, name, avatar, bio, public_key, wallet_address, r),
            r is Ok,
        ensures
            r->Ok_0@.id == decimal(s1.user_count_spec() as nat),
            s1.user_count_spec() == s0.user_count_spec() + 1,
            !s0.users_map().contains_key(r->Ok_0@.id),
            forall|n: nat| n != s1.user_count_spec() ==> decimal(n) != r->Ok_0@.id,
    {
        assert forall|n: nat| n != s1.user_count_spec() implies decimal(n) != r->Ok_0@.id by {
            if decimal(n) == r->Ok_0@.id {
                lemma_decimal_injective(n, s1.user_count_spec() as nat);
            }
        }
    }

    /// What was handed to `create_user` is what the new user record holds.
    pub proof fn lemma_user_round_trip(
        s0: SocialNetwork,
        s1: SocialNetwork,
        name: Seq<char>,
        avatar: Seq<char>,
        bio: Seq<char>,
        public_key: Seq<char>,
        wallet_address: Option<Seq<char>>,
        r: Result<User, Error>,
    )
        requires
            Self::user_created(s0, s1, name, avatar, bio, public_key, wallet_address, r),
            r is Ok,
        ensures
            s1.users_map().contains_key(r->Ok_0@.id),
            s1.users_map()[r->Ok_0@.id].name == name,
            s1.users_map()[r->Ok_0@.id].avatar == avatar,
            s1.users_map()[r->Ok_0@.id].bio == bio,
            s1.users_map()[r->Ok_0@.id].wallet_address == wallet_address,
            s1.keys_map()[public_key] == r->Ok_0@.id,
    {
    }

    /// What was handed to `create_post_at` is what the new post record holds.
    pub proof fn lemma_post_round_trip(
        s0: SocialNetwork,
        s1: SocialNetwork,
        author_id: Seq<char>,
        content: Seq<char>,
        now: u64,
        r: Result<Post, Error>,
    )
        requires
            Self::post_created(s0, s1, author_id, content, now, r),
            r is Ok,
        ensures
            s1.posts_map().contains_key(r->Ok_0@.id),
            s1.posts_map()[r->Ok_0@.id].author_id == author_id,
            s1.posts_map()[r->Ok_0@.id].content == content,
            s1.posts_map()[r->Ok_0@.id].timestamp == now,
    {
    }

    /// Liking a post twice leaves one like by the user; the second call
    /// returns the post as it was and changes nothing, events included.
    pub proof fn lemma_like_twice(
        s0: SocialNetwork,
        s1: SocialNetwork,
        s2: SocialNetwork,
        post_id: Seq<char>,
        user_id: Seq<char>,
        t1: u64,
        t2: u64,
        r1: Result<Post, Error>,
        r2: Result<Post, Error>,
    )
        requires
            s0.wf(),
            s1.wf(),
            Self::post_liked(s0, s1, post_id, user_id, t1, r1),
            Self::post_liked(s1, s2, post_id, user_id, t2, r2),
            r1 is Ok,
        ensures
            r2 is Ok,
            r2->Ok_0@ == r1->Ok_0@,
            s2 == s1,
            s2.events_view() == s1.events_view(),
            likes_by(s2.posts_map()[post_id].likes, user_id) == 1,
    {
        let post = s0.posts_map()[post_id];
        if !has_like(post.likes, user_id) {
            let likes = post.likes.push(
                LikeView { user_id: user_id, user_name: s0.users_map()[user_id].name, timestamp: t1 },
            );
            assert(likes[post.likes.len() as int].user_id == user_id);
        }
        assert(has_like(s1.posts_map()[post_id].likes, user_id));
        lemma_likes_by(s2.posts_map()[post_id].likes, user_id);
    }

    /// Unliking a post that the user never liked leaves its likes as they
    /// were, and still emits the event.
    pub proof fn lemma_unlike_absent(
        s0: SocialNetwork,
        s1: SocialNetwork,
        post_id: Seq<char>,
        user_id: Seq<char>,
        r: Result<Post, Error>,
    )
        requires
            Self::post_unliked(s0, s1, post_id, user_id, r),
            s0.posts_map().contains_key(post_id),
            !has_like(s0.posts_map()[post_id].likes, user_id),
        ensures
            r is Ok,
            s1.posts_map()[post_id].likes == s0.posts_map()[post_id].likes,
            s1.events_view() == s0.events_view().push(
                EventView::PostUnliked { id: post_id, user_id: user_id },
            ),
    {
        lemma_filter_absent(s0.posts_map()[post_id].likes, user_id);
    }

    /// After a follow, each of the two lists shows the edge.
    pub proof fn lemma_follow_shows_edge(
        s0: SocialNetwork,
        s1: SocialNetwork,
        a: Seq<char>,
        b: Seq<char>,
        r: Result<(), Error>,
    )
        requires
            Self::user_followed(s0, s1, a, b, r),
            r is Ok,
        ensures
            s1.following_of(a).contains(b),
            s1.followers_of(b).contains(a),
    {
        assert(s1.following_of(a) == s0.following_of(a).push(b));
        assert(s1.following_of(a)[s0.following_of(a).len() as int] == b);
        assert(s1.followers_of(b) == s0.followers_of(b).push(a));
        assert(s1.followers_of(b)[s0.followers_of(b).len() as int] == a);
    }

    /// After an unfollow, neither list shows the edge.
    pub proof fn lemma_unfollow_drops_edge(s0: SocialNetwork, s1: SocialNetwork, a: Seq<char>, b: Seq<char>)
        requires
            Self::user_unfollowed(s0, s1, a, b),
        ensures
            !s1.following_of(a).contains(b),
            !s1.followers_of(b).contains(a),
    {
        lemma_other_than_contains(s0.following_of(a), b, b);
        lemma_other_than_contains(s0.followers_of(b), a, a);
    }

    /// Following oneself fails with a conflict and changes nothing.
    pub proof fn lemma_self_follow_conflicts(
        s0: SocialNetwork,
        s1: SocialNetwork,
        a: Seq<char>,
        r: Result<(), Error>,
    )
        requires
            Self::user_followed(s0, s1, a, a, r),
            s0.users_map().contains_key(a),
        ensures
            r is Err,
            kind_of(r->Err_0@) == ErrorKind::Conflict,
            s1 == s0,
    {
    }

    /// A deleted post is gone, and the post count still counts it.
    pub proof fn lemma_delete_removes(
        s0: SocialNetwork,
        s1: SocialNetwork,
        post_id: Seq<char>,
        user_id: Seq<char>,
        r: Result<(), Error>,
    )
        requires
            Self::post_deleted(s0, s1, post_id, user_id, r),
            r is Ok,
        ensures
            !s1.posts_map().contains_key(post_id),
            s1.post_count_spec() == s0.post_count_spec(),
    {
    }
}

} // verus!
