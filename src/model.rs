//! The entities of the network and their mathematical views.
use vstd::prelude::*;

verus! {

/// A registered user.
#[derive(Debug, Clone, PartialEq, Eq)]
pub struct User {
    pub id: String,
    pub name: String,
    pub avatar: String,
    pub bio: String,
    pub wallet_address: Option<String>,
}

/// One user's like on a post.
#[derive(Debug, Clone, PartialEq, Eq)]
pub struct Like {
    pub user_id: String,
    pub user_name: String,
    pub timestamp: u64,
}

/// One tip sent to a post's author; the amount keeps its decimal text.
#[derive(Debug, Clone, PartialEq, Eq)]
pub struct Tip {
    pub user_id: String,
    pub user_name: String,
    pub amount_usdc: String,
    pub timestamp: u64,
    pub tx_hash: String,
}

/// A post, with author display fields copied from the author when it was created.
#[derive(Debug, Clone, PartialEq, Eq)]
pub struct Post {
    pub id: String,
    pub author_id: String,
    pub author_name: String,
    pub author_avatar: String,
    pub content: String,
    pub timestamp: u64,
    pub likes: Vec<Like>,
    pub tips: Vec<Tip>,
    pub author_wallet_address: Option<String>,
}

/// What a user holds, as mathematical values.
pub struct UserView {
    pub id: Seq<char>,
    pub name: Seq<char>,
    pub avatar: Seq<char>,
    pub bio: Seq<char>,
    pub wallet_address: Option<Seq<char>>,
}

/// What a like holds, as mathematical values.
pub struct LikeView {
    pub user_id: Seq<char>,
    pub user_name: Seq<char>,
    pub timestamp: u64,
}

/// What a tip holds, as mathematical values.
pub struct TipView {
    pub user_id: Seq<char>,
    pub user_name: Seq<char>,
    pub amount_usdc: Seq<char>,
    pub timestamp: u64,
    pub tx_hash: Seq<char>,
}

/// What a post holds, likes and tips included, as mathematical values.
pub struct PostView {
    pub id: Seq<char>,
    pub author_id: Seq<char>,
    pub author_name: Seq<char>,
    pub author_avatar: Seq<char>,
    pub content: Seq<char>,
    pub timestamp: u64,
    pub likes: Seq<LikeView>,
    pub tips: Seq<TipView>,
    pub author_wallet_address: Option<Seq<char>>,
}

/// The view of an optional string.
pub open spec fn opt_view(o: Option<String>) -> Option<Seq<char>> {
    match o {
        Some(s) => Some(s@),
        None => None,
    }
}

/// The views of a list of strings.
pub open spec fn strings_view(v: Seq<String>) -> Seq<Seq<char>> {
    v.map_values(|s: String| s@)
}

impl View for User {
    type V = UserView;

    open spec fn view(&self) -> UserView {
        UserView {
            id: self.id@,
            name: self.name@,
            avatar: self.avatar@,
            bio: self.bio@,
            wallet_address: opt_view(self.wallet_address),
        }
    }
}

impl View for Like {
    type V = LikeView;

    open spec fn view(&self) -> LikeView {
        LikeView { user_id: self.user_id@, user_name: self.user_name@, timestamp: self.timestamp }
    }
}

impl View for Tip {
    type V = TipView;

    open spec fn view(&self) -> TipView {
        TipView {
            user_id: self.user_id@,
            user_name: self.user_name@,
            amount_usdc: self.amount_usdc@,
            timestamp: self.timestamp,
            tx_hash: self.tx_hash@,
        }
    }
}

impl View for Post {
    type V = PostView;

    open spec fn view(&self) -> PostView {
        PostView {
            id: self.id@,
            author_id: self.author_id@,
            author_name: self.author_name@,
            author_avatar: self.author_avatar@,
            content: self.content@,
            timestamp: self.timestamp,
            likes: self.likes@.map_values(|l: Like| l@),
            tips: self.tips@.map_values(|t: Tip| t@),
            author_wallet_address: opt_view(self.author_wallet_address),
        }
    }
}

/// A copy of an optional string.
pub fn copy_opt(o: &Option<String>) -> (r: Option<String>)
    ensures
        opt_view(r) == opt_view(*o),
{
    match o {
        Some(s) => Some(s.clone()),
        None => None,
    }
}

/// A copy of a list of strings.
pub fn copy_strings(v: &Vec<String>) -> (r: Vec<String>)
    ensures
        strings_view(r@) == strings_view(v@),
{
    let mut r: Vec<String> = Vec::new();
    let mut i: usize = 0;
    while i < v.len()
        invariant
            i <= v@.len(),
            r@.len() == i,
            forall|k: int| 0 <= k < i ==> #[trigger] r@[k]@ == v@[k]@,
        decreases v@.len() - i,
    {
        r.push(v[i].clone());
        i += 1;
    }
    assert(strings_view(r@) =~= strings_view(v@));
    r
}

impl User {
    /// A copy of this user.
    pub fn duplicate(&self) -> (r: User)
        ensures
            r@ == self@,
    {
        User {
            id: self.id.clone(),
            name: self.name.clone(),
            avatar: self.avatar.clone(),
            bio: self.bio.clone(),
            wallet_address: copy_opt(&self.wallet_address),
        }
    }
}

impl Like {
    /// A copy of this like.
    pub fn duplicate(&self) -> (r: Like)
        ensures
            r@ == self@,
    {
        Like { user_id: self.user_id.clone(), user_name: self.user_name.clone(), timestamp: self.timestamp }
    }
}

impl Tip {
    /// A copy of this tip.
    pub fn duplicate(&self) -> (r: Tip)
        ensures
            r@ == self@,
    {
        Tip {
            user_id: self.user_id.clone(),
            user_name: self.user_name.clone(),
            amount_usdc: self.amount_usdc.clone(),
            timestamp: self.timestamp,
            tx_hash: self.tx_hash.clone(),
        }
    }
}

impl Post {
    /// A copy of this post, likes and tips included.
    pub fn duplicate(&self) -> (r: Post)
        ensures
            r@ == self@,
    {
        let mut likes: Vec<Like> = Vec::new();
        let mut i: usize = 0;
        while i < self.likes.len()
            invariant
                i <= self.likes@.len(),
                likes@.len() == i,
                forall|k: int| 0 <= k < i ==> #[trigger] likes@[k]@ == self.likes@[k]@,
            decreases self.likes@.len() - i,
        {
            likes.push(self.likes[i].duplicate());
            i += 1;
        }
        let mut tips: Vec<Tip> = Vec::new();
        let mut j: usize = 0;
        while j < self.tips.len()
            invariant
                j <= self.tips@.len(),
                tips@.len() == j,
                forall|k: int| 0 <= k < j ==> #[trigger] tips@[k]@ == self.tips@[k]@,
            decreases self.tips@.len() - j,
        {
            tips.push(self.tips[j].duplicate());
            j += 1;
        }
        assert(likes@.map_values(|l: Like| l@) =~= self.likes@.map_values(|l: Like| l@));
        assert(tips@.map_values(|t: Tip| t@) =~= self.tips@.map_values(|t: Tip| t@));
        Post {
            id: self.id.clone(),
            author_id: self.author_id.clone(),
            author_name: self.author_name.clone(),
            author_avatar: self.author_avatar.clone(),
            content: self.content.clone(),
            timestamp: self.timestamp,
            likes,
            tips,
            author_wallet_address: copy_opt(&self.author_wallet_address),
        }
    }
}

} // verus!
