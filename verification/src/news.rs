//! Texts of several kinds, news articles and tweets, and the one-line summary
//! that each can give of itself.

use vstd::prelude::*;
use vstd::string::StringSliceAdditionalSpecFns;
use vstd::utf8::encode_utf8;

verus! {

/// The longest content a tweet may have, in bytes.
pub const TWEET_LIMIT: usize = 280;

/// Something that can be summed up in a line.
pub trait Summary {
    /// The summary; where a type has nothing better to say, an invitation to
    /// read on.
    fn summarize(&self) -> (r: String)
        default_ensures
            r@ == "(Read more...)"@,
    {
        "(Read more...)".to_owned()
    }
}

/// A news article.
pub struct NewsArticle {
    headline: String,
    location: String,
    author: String,
    content: String,
}

impl NewsArticle {
    pub closed spec fn headline(&self) -> Seq<char> {
        self.headline@
    }

    pub closed spec fn location(&self) -> Seq<char> {
        self.location@
    }

    pub closed spec fn author(&self) -> Seq<char> {
        self.author@
    }

    pub closed spec fn content(&self) -> Seq<char> {
        self.content@
    }

    /// The article's summary: the headline, then the author and, in
    /// brackets, the place.
    pub open spec fn summary(&self) -> Seq<char> {
        self.headline() + ", by "@ + self.author() + " ("@ + self.location() + ")"@
    }

    /// An article made of copies of the four texts.
    pub fn new(headline: &str, location: &str, author: &str, content: &str) -> (r: Self)
        ensures
            r.headline() == headline@,
            r.location() == location@,
            r.author() == author@,
            r.content() == content@,
    {
        Self {
            headline: headline.to_owned(),
            location: location.to_owned(),
            author: author.to_owned(),
            content: content.to_owned(),
        }
    }
}

impl Summary for NewsArticle {
    fn summarize(&self) -> (r: String)
        ensures
            r@ == self.summary(),
    {
        let mut r = self.headline.clone();
        r.append(", by ");
        r.append(self.author.as_str());
        r.append(" (");
        r.append(self.location.as_str());
        r.append(")");
        r
    }
}

/// What kind of tweet a tweet is.
pub enum TweetType {
    Tweet,
    Retweet,
    Reply,
}

/// A tweet: at most 280 bytes of content, and, where it is a reply, the
/// number of the tweet it replies to.
pub struct Tweet {
    username: String,
    content: String,
    tweet_type: TweetType,
    replied_to: Option<u32>,
}

/// The content is longer than a tweet may be.
pub open spec fn too_long(content: Seq<char>) -> bool {
    encode_utf8(content).len() > TWEET_LIMIT
}

/// The tweet is a reply and names no tweet that it replies to.
pub open spec fn reply_to_nothing(tweet_type: TweetType, replied_to: Option<u32>) -> bool {
    tweet_type is Reply && replied_to is None
}

impl Tweet {
    pub closed spec fn username(&self) -> Seq<char> {
        self.username@
    }

    pub closed spec fn content(&self) -> Seq<char> {
        self.content@
    }

    pub closed spec fn tweet_type(&self) -> TweetType {
        self.tweet_type
    }

    pub closed spec fn replied_to(&self) -> Option<u32> {
        self.replied_to
    }

    /// Every tweet keeps within the limit, and every reply names its tweet.
    pub closed spec fn well_formed(&self) -> bool {
        &&& !too_long(self.content@)
        &&& !reply_to_nothing(self.tweet_type, self.replied_to)
    }

    /// The tweet's summary: the user's name, a colon and the content.
    pub open spec fn summary(&self) -> Seq<char> {
        self.username() + ": "@ + self.content()
    }

    /// A tweet made of the four parts, or the reason why they make none:
    /// content that is too long is refused first, then a reply to nothing.
    pub fn new(
        username: &str,
        content: &str,
        tweet_type: TweetType,
        replied_to: Option<u32>,
    ) -> (r: Result<Self, String>)
        ensures
            r is Err <==> too_long(content@) || reply_to_nothing(tweet_type, replied_to),
            r matches Err(reason) ==> reason@ == (if too_long(content@) {
                "Tweet too long."@
            } else {
                "Tweet is a reply to nothing."@
            }),
            r matches Ok(tweet) ==> {
                &&& tweet.well_formed()
                &&& tweet.username() == username@
                &&& tweet.content() == content@
                &&& tweet.tweet_type() == tweet_type
                &&& tweet.replied_to() == replied_to
            },
    {
        if content.as_bytes().len() > TWEET_LIMIT {
            return Err("Tweet too long.".to_owned());
        } else if let TweetType::Reply = tweet_type {
            if replied_to.is_none() {
                return Err("Tweet is a reply to nothing.".to_owned());
            }
        }
        let r = Self {
            username: username.to_owned(),
            content: content.to_owned(),
            tweet_type,
            replied_to,
        };
        Ok(r)
    }
}

impl Summary for Tweet {
    fn summarize(&self) -> (r: String)
        ensures
            r@ == self.summary(),
    {
        let mut r = self.username.clone();
        r.append(": ");
        r.append(self.content.as_str());
        r
    }
}

/// The line that announces an item, given the item's summary.
pub fn announcement(summary: &str) -> (r: String)
    ensures
        r@ == "Breaking news! "@ + summary@,
{
    let mut r = "Breaking news! ".to_owned();
    r.append(summary);
    r
}

} // verus!
