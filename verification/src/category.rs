//! The category resolver: classifies a free-text category string into a
//! closed enumeration, with an approximate-match "did you mean" suggestion on
//! failure, and exposes each category's fixed platform taxonomy strings.
use vstd::prelude::*;

use crate::text::{lower_char, lower_seq};

verus! {

/// Bit pattern of the confidence threshold, the IEEE 754 double nearest to
/// eight tenths: a similarity score below it yields no suggestion. Scores are
/// doubles in `[0, 1]`, whose bit patterns order exactly as the values do, so
/// comparisons stay in integer arithmetic.
pub const CONFIDENCE_THRESHOLD_BITS: u64 = 0x3FE999999999999A;

pub const TABLE_LEN: usize = 73;

#[derive(Clone, Copy, Debug, Eq, PartialEq)]
pub enum Category {
    Business,
    DeveloperTool,
    Education,
    Entertainment,
    Finance,
    Game,
    ActionGame,
    AdventureGame,
    ArcadeGame,
    BoardGame,
    CardGame,
    CasinoGame,
    DiceGame,
    EducationalGame,
    FamilyGame,
    KidsGame,
    MusicGame,
    PuzzleGame,
    RacingGame,
    RolePlayingGame,
    SimulationGame,
    SportsGame,
    StrategyGame,
    TriviaGame,
    WordGame,
    GraphicsAndDesign,
    HealthcareAndFitness,
    Lifestyle,
    Medical,
    Music,
    News,
    Photography,
    Productivity,
    Reference,
    SocialNetworking,
    Sports,
    Travel,
    Utility,
    Video,
    Weather,
}

// ---------- fixed projections ----------

pub open spec fn canonical_name(c: Category) -> Seq<char> {
    match c {
        Category::Business => "Business"@,
        Category::DeveloperTool => "Developer Tool"@,
        Category::Education => "Education"@,
        Category::Entertainment => "Entertainment"@,
        Category::Finance => "Finance"@,
        Category::Game => "Game"@,
        Category::ActionGame => "Action Game"@,
        Category::AdventureGame => "Adventure Game"@,
        Category::ArcadeGame => "Arcade Game"@,
        Category::BoardGame => "Board Game"@,
        Category::CardGame => "Card Game"@,
        Category::CasinoGame => "Casino Game"@,
        Category::DiceGame => "Dice Game"@,
        Category::EducationalGame => "Educational Game"@,
        Category::FamilyGame => "Family Game"@,
        Category::KidsGame => "Kids Game"@,
        Category::MusicGame => "Music Game"@,
        Category::PuzzleGame => "Puzzle Game"@,
        Category::RacingGame => "Racing Game"@,
        Category::RolePlayingGame => "Role-Playing Game"@,
        Category::SimulationGame => "Simulation Game"@,
        Category::SportsGame => "Sports Game"@,
        Category::StrategyGame => "Strategy Game"@,
        Category::TriviaGame => "Trivia Game"@,
        Category::WordGame => "Word Game"@,
        Category::GraphicsAndDesign => "Graphics and Design"@,
        Category::HealthcareAndFitness => "Healthcare and Fitness"@,
        Category::Lifestyle => "Lifestyle"@,
        Category::Medical => "Medical"@,
        Category::Music => "Music"@,
        Category::News => "News"@,
        Category::Photography => "Photography"@,
        Category::Productivity => "Productivity"@,
        Category::Reference => "Reference"@,
        Category::SocialNetworking => "Social Networking"@,
        Category::Sports => "Sports"@,
        Category::Travel => "Travel"@,
        Category::Utility => "Utility"@,
        Category::Video => "Video"@,
        Category::Weather => "Weather"@,
    }
}

pub open spec fn gnome_categories(c: Category) -> Seq<char> {
    match c {
        Category::Business => "Office;"@,
        Category::DeveloperTool => "Development;"@,
        Category::Education => "Education;"@,
        Category::Entertainment => "Network;"@,
        Category::Finance => "Office;Finance;"@,
        Category::Game => "Game;"@,
        Category::ActionGame => "Game;ActionGame;"@,
        Category::AdventureGame => "Game;AdventureGame;"@,
        Category::ArcadeGame => "Game;ArcadeGame;"@,
        Category::BoardGame => "Game;BoardGame;"@,
        Category::CardGame => "Game;CardGame;"@,
        Category::CasinoGame => "Game;"@,
        Category::DiceGame => "Game;"@,
        Category::EducationalGame => "Game;Education;"@,
        Category::FamilyGame => "Game;"@,
        Category::KidsGame => "Game;KidsGame;"@,
        Category::MusicGame => "Game;"@,
        Category::PuzzleGame => "Game;LogicGame;"@,
        Category::RacingGame => "Game;"@,
        Category::RolePlayingGame => "Game;RolePlaying;"@,
        Category::SimulationGame => "Game;Simulation;"@,
        Category::SportsGame => "Game;SportsGame;"@,
        Category::StrategyGame => "Game;StrategyGame;"@,
        Category::TriviaGame => "Game;"@,
        Category::WordGame => "Game;"@,
        Category::GraphicsAndDesign => "Graphics;"@,
        Category::HealthcareAndFitness => "Science;"@,
        Category::Lifestyle => "Education;"@,
        Category::Medical => "Science;MedicalSoftware;"@,
        Category::Music => "AudioVideo;Audio;Music;"@,
        Category::News => "Network;News;"@,
        Category::Photography => "Graphics;Photography;"@,
        Category::Productivity => "Office;"@,
        Category::Reference => "Education;"@,
        Category::SocialNetworking => "Network;"@,
        Category::Sports => "Education;Sports;"@,
        Category::Travel => "Education;"@,
        Category::Utility => "Utility;"@,
        Category::Video => "AudioVideo;Video;"@,
        Category::Weather => "Science;"@,
    }
}

pub open spec fn osx_category_type(c: Category) -> Seq<char> {
    match c {
        Category::Business => "public.app-category.business"@,
        Category::DeveloperTool => "public.app-category.developer-tools"@,
        Category::Education => "public.app-category.education"@,
        Category::Entertainment => "public.app-category.entertainment"@,
        Category::Finance => "public.app-category.finance"@,
        Category::Game => "public.app-category.games"@,
        Category::ActionGame => "public.app-category.action-games"@,
        Category::AdventureGame => "public.app-category.adventure-games"@,
        Category::ArcadeGame => "public.app-category.arcade-games"@,
        Category::BoardGame => "public.app-category.board-games"@,
        Category::CardGame => "public.app-category.card-games"@,
        Category::CasinoGame => "public.app-category.casino-games"@,
        Category::DiceGame => "public.app-category.dice-games"@,
        Category::EducationalGame => "public.app-category.educational-games"@,
        Category::FamilyGame => "public.app-category.family-games"@,
        Category::KidsGame => "public.app-category.kids-games"@,
        Category::MusicGame => "public.app-category.music-games"@,
        Category::PuzzleGame => "public.app-category.puzzle-games"@,
        Category::RacingGame => "public.app-category.racing-games"@,
        Category::RolePlayingGame => "public.app-category.role-playing-games"@,
        Category::SimulationGame => "public.app-category.simulation-games"@,
        Category::SportsGame => "public.app-category.sports-games"@,
        Category::StrategyGame => "public.app-category.strategy-games"@,
        Category::TriviaGame => "public.app-category.trivia-games"@,
        Category::WordGame => "public.app-category.word-games"@,
        Category::GraphicsAndDesign => "public.app-category.graphics-design"@,
        Category::HealthcareAndFitness => "public.app-category.healthcare-fitness"@,
        Category::Lifestyle => "public.app-category.lifestyle"@,
        Category::Medical => "public.app-category.medical"@,
        Category::Music => "public.app-category.music"@,
        Category::News => "public.app-category.news"@,
        Category::Photography => "public.app-category.photography"@,
        Category::Productivity => "public.app-category.productivity"@,
        Category::Reference => "public.app-category.reference"@,
        Category::SocialNetworking => "public.app-category.social-networking"@,
        Category::Sports => "public.app-category.sports"@,
        Category::Travel => "public.app-category.travel"@,
        Category::Utility => "public.app-category.utilities"@,
        Category::Video => "public.app-category.video"@,
        Category::Weather => "public.app-category.weather"@,
    }
}

impl Category {
    /// The canonical display name, recommended when the user misspells a
    /// category.
    pub fn canonical(self) -> (r: &'static str)
        ensures
            r@ == canonical_name(self),
    {
        match self {
            Category::Business => "Business",
            Category::DeveloperTool => "Developer Tool",
            Category::Education => "Education",
            Category::Entertainment => "Entertainment",
            Category::Finance => "Finance",
            Category::Game => "Game",
            Category::ActionGame => "Action Game",
            Category::AdventureGame => "Adventure Game",
            Category::ArcadeGame => "Arcade Game",
            Category::BoardGame => "Board Game",
            Category::CardGame => "Card Game",
            Category::CasinoGame => "Casino Game",
            Category::DiceGame => "Dice Game",
            Category::EducationalGame => "Educational Game",
            Category::FamilyGame => "Family Game",
            Category::KidsGame => "Kids Game",
            Category::MusicGame => "Music Game",
            Category::PuzzleGame => "Puzzle Game",
            Category::RacingGame => "Racing Game",
            Category::RolePlayingGame => "Role-Playing Game",
            Category::SimulationGame => "Simulation Game",
            Category::SportsGame => "Sports Game",
            Category::StrategyGame => "Strategy Game",
            Category::TriviaGame => "Trivia Game",
            Category::WordGame => "Word Game",
            Category::GraphicsAndDesign => "Graphics and Design",
            Category::HealthcareAndFitness => "Healthcare and Fitness",
            Category::Lifestyle => "Lifestyle",
            Category::Medical => "Medical",
            Category::Music => "Music",
            Category::News => "News",
            Category::Photography => "Photography",
            Category::Productivity => "Productivity",
            Category::Reference => "Reference",
            Category::SocialNetworking => "Social Networking",
            Category::Sports => "Sports",
            Category::Travel => "Travel",
            Category::Utility => "Utility",
            Category::Video => "Video",
            Category::Weather => "Weather",
        }
    }

    /// The closest set of GNOME desktop registered categories.
    pub fn gnome_desktop_categories(&self) -> (r: &'static str)
        ensures
            r@ == gnome_categories(*self),
    {
        match &self {
            Category::Business => "Office;",
            Category::DeveloperTool => "Development;",
            Category::Education => "Education;",
            Category::Entertainment => "Network;",
            Category::Finance => "Office;Finance;",
            Category::Game => "Game;",
            Category::ActionGame => "Game;ActionGame;",
            Category::AdventureGame => "Game;AdventureGame;",
            Category::ArcadeGame => "Game;ArcadeGame;",
            Category::BoardGame => "Game;BoardGame;",
            Category::CardGame => "Game;CardGame;",
            Category::CasinoGame => "Game;",
            Category::DiceGame => "Game;",
            Category::EducationalGame => "Game;Education;",
            Category::FamilyGame => "Game;",
            Category::KidsGame => "Game;KidsGame;",
            Category::MusicGame => "Game;",
            Category::PuzzleGame => "Game;LogicGame;",
            Category::RacingGame => "Game;",
            Category::RolePlayingGame => "Game;RolePlaying;",
            Category::SimulationGame => "Game;Simulation;",
            Category::SportsGame => "Game;SportsGame;",
            Category::StrategyGame => "Game;StrategyGame;",
            Category::TriviaGame => "Game;",
            Category::WordGame => "Game;",
            Category::GraphicsAndDesign => "Graphics;",
            Category::HealthcareAndFitness => "Science;",
            Category::Lifestyle => "Education;",
            Category::Medical => "Science;MedicalSoftware;",
            Category::Music => "AudioVideo;Audio;Music;",
            Category::News => "Network;News;",
            Category::Photography => "Graphics;Photography;",
            Category::Productivity => "Office;",
            Category::Reference => "Education;",
            Category::SocialNetworking => "Network;",
            Category::Sports => "Education;Sports;",
            Category::Travel => "Education;",
            Category::Utility => "Utility;",
            Category::Video => "AudioVideo;Video;",
            Category::Weather => "Science;",
        }
    }

    /// The closest LSApplicationCategoryType value.
    pub fn osx_application_category_type(&self) -> (r: &'static str)
        ensures
            r@ == osx_category_type(*self),
    {
        match &self {
            Category::Business => "public.app-category.business",
            Category::DeveloperTool => "public.app-category.developer-tools",
            Category::Education => "public.app-category.education",
            Category::Entertainment => "public.app-category.entertainment",
            Category::Finance => "public.app-category.finance",
            Category::Game => "public.app-category.games",
            Category::ActionGame => "public.app-category.action-games",
            Category::AdventureGame => "public.app-category.adventure-games",
            Category::ArcadeGame => "public.app-category.arcade-games",
            Category::BoardGame => "public.app-category.board-games",
            Category::CardGame => "public.app-category.card-games",
            Category::CasinoGame => "public.app-category.casino-games",
            Category::DiceGame => "public.app-category.dice-games",
            Category::EducationalGame => "public.app-category.educational-games",
            Category::FamilyGame => "public.app-category.family-games",
            Category::KidsGame => "public.app-category.kids-games",
            Category::MusicGame => "public.app-category.music-games",
            Category::PuzzleGame => "public.app-category.puzzle-games",
            Category::RacingGame => "public.app-category.racing-games",
            Category::RolePlayingGame => "public.app-category.role-playing-games",
            Category::SimulationGame => "public.app-category.simulation-games",
            Category::SportsGame => "public.app-category.sports-games",
            Category::StrategyGame => "public.app-category.strategy-games",
            Category::TriviaGame => "public.app-category.trivia-games",
            Category::WordGame => "public.app-category.word-games",
            Category::GraphicsAndDesign => "public.app-category.graphics-design",
            Category::HealthcareAndFitness => "public.app-category.healthcare-fitness",
            Category::Lifestyle => "public.app-category.lifestyle",
            Category::Medical => "public.app-category.medical",
            Category::Music => "public.app-category.music",
            Category::News => "public.app-category.news",
            Category::Photography => "public.app-category.photography",
            Category::Productivity => "public.app-category.productivity",
            Category::Reference => "public.app-category.reference",
            Category::SocialNetworking => "public.app-category.social-networking",
            Category::Sports => "public.app-category.sports",
            Category::Travel => "public.app-category.travel",
            Category::Utility => "public.app-category.utilities",
            Category::Video => "public.app-category.video",
            Category::Weather => "public.app-category.weather",
        }
    }
}

// ---------- the alias table ----------

/// Alias strings (canonicalized form) and the category each stands for.
pub open spec fn spec_table() -> Seq<(Seq<char>, Category)> {
    seq![
        ("actiongame"@, Category::ActionGame),
        ("actiongames"@, Category::ActionGame),
        ("adventuregame"@, Category::AdventureGame),
        ("adventuregames"@, Category::AdventureGame),
        ("arcadegame"@, Category::ArcadeGame),
        ("arcadegames"@, Category::ArcadeGame),
        ("boardgame"@, Category::BoardGame),
        ("boardgames"@, Category::BoardGame),
        ("business"@, Category::Business),
        ("cardgame"@, Category::CardGame),
        ("cardgames"@, Category::CardGame),
        ("casinogame"@, Category::CasinoGame),
        ("casinogames"@, Category::CasinoGame),
        ("developer"@, Category::DeveloperTool),
        ("developertool"@, Category::DeveloperTool),
        ("developertools"@, Category::DeveloperTool),
        ("development"@, Category::DeveloperTool),
        ("dicegame"@, Category::DiceGame),
        ("dicegames"@, Category::DiceGame),
        ("education"@, Category::Education),
        ("educationalgame"@, Category::EducationalGame),
        ("educationalgames"@, Category::EducationalGame),
        ("entertainment"@, Category::Entertainment),
        ("familygame"@, Category::FamilyGame),
        ("familygames"@, Category::FamilyGame),
        ("finance"@, Category::Finance),
        ("fitness"@, Category::HealthcareAndFitness),
        ("game"@, Category::Game),
        ("games"@, Category::Game),
        ("graphicdesign"@, Category::GraphicsAndDesign),
        ("graphicsanddesign"@, Category::GraphicsAndDesign),
        ("graphicsdesign"@, Category::GraphicsAndDesign),
        ("healthcareandfitness"@, Category::HealthcareAndFitness),
        ("healthcarefitness"@, Category::HealthcareAndFitness),
        ("kidsgame"@, Category::KidsGame),
        ("kidsgames"@, Category::KidsGame),
        ("lifestyle"@, Category::Lifestyle),
        ("logicgame"@, Category::PuzzleGame),
        ("medical"@, Category::Medical),
        ("medicalsoftware"@, Category::Medical),
        ("music"@, Category::Music),
        ("musicgame"@, Category::MusicGame),
        ("musicgames"@, Category::MusicGame),
        ("news"@, Category::News),
        ("photography"@, Category::Photography),
        ("productivity"@, Category::Productivity),
        ("puzzlegame"@, Category::PuzzleGame),
        ("puzzlegames"@, Category::PuzzleGame),
        ("racinggame"@, Category::RacingGame),
        ("racinggames"@, Category::RacingGame),
        ("reference"@, Category::Reference),
        ("roleplaying"@, Category::RolePlayingGame),
        ("roleplayinggame"@, Category::RolePlayingGame),
        ("roleplayinggames"@, Category::RolePlayingGame),
        ("rpg"@, Category::RolePlayingGame),
        ("simulationgame"@, Category::SimulationGame),
        ("simulationgames"@, Category::SimulationGame),
        ("socialnetwork"@, Category::SocialNetworking),
        ("socialnetworking"@, Category::SocialNetworking),
        ("sports"@, Category::Sports),
        ("sportsgame"@, Category::SportsGame),
        ("sportsgames"@, Category::SportsGame),
        ("strategygame"@, Category::StrategyGame),
        ("strategygames"@, Category::StrategyGame),
        ("travel"@, Category::Travel),
        ("triviagame"@, Category::TriviaGame),
        ("triviagames"@, Category::TriviaGame),
        ("utilities"@, Category::Utility),
        ("utility"@, Category::Utility),
        ("video"@, Category::Video),
        ("weather"@, Category::Weather),
        ("wordgame"@, Category::WordGame),
        ("wordgames"@, Category::WordGame),
    ]
}

/// The alias table, entry by entry.
fn table_entry(i: usize) -> (r: (&'static str, Category))
    requires
        i < TABLE_LEN,
    ensures
        r.0@ == spec_table()[i as int].0,
        r.1 == spec_table()[i as int].1,
{
    match i {
        0 => ("actiongame", Category::ActionGame),
        1 => ("actiongames", Category::ActionGame),
        2 => ("adventuregame", Category::AdventureGame),
        3 => ("adventuregames", Category::AdventureGame),
        4 => ("arcadegame", Category::ArcadeGame),
        5 => ("arcadegames", Category::ArcadeGame),
        6 => ("boardgame", Category::BoardGame),
        7 => ("boardgames", Category::BoardGame),
        8 => ("business", Category::Business),
        9 => ("cardgame", Category::CardGame),
        10 => ("cardgames", Category::CardGame),
        11 => ("casinogame", Category::CasinoGame),
        12 => ("casinogames", Category::CasinoGame),
        13 => ("developer", Category::DeveloperTool),
        14 => ("developertool", Category::DeveloperTool),
        15 => ("developertools", Category::DeveloperTool),
        16 => ("development", Category::DeveloperTool),
        17 => ("dicegame", Category::DiceGame),
        18 => ("dicegames", Category::DiceGame),
        19 => ("education", Category::Education),
        20 => ("educationalgame", Category::EducationalGame),
        21 => ("educationalgames", Category::EducationalGame),
        22 => ("entertainment", Category::Entertainment),
        23 => ("familygame", Category::FamilyGame),
        24 => ("familygames", Category::FamilyGame),
        25 => ("finance", Category::Finance),
        26 => ("fitness", Category::HealthcareAndFitness),
        27 => ("game", Category::Game),
        28 => ("games", Category::Game),
        29 => ("graphicdesign", Category::GraphicsAndDesign),
        30 => ("graphicsanddesign", Category::GraphicsAndDesign),
        31 => ("graphicsdesign", Category::GraphicsAndDesign),
        32 => ("healthcareandfitness", Category::HealthcareAndFitness),
        33 => ("healthcarefitness", Category::HealthcareAndFitness),
        34 => ("kidsgame", Category::KidsGame),
        35 => ("kidsgames", Category::KidsGame),
        36 => ("lifestyle", Category::Lifestyle),
        37 => ("logicgame", Category::PuzzleGame),
        38 => ("medical", Category::Medical),
        39 => ("medicalsoftware", Category::Medical),
        40 => ("music", Category::Music),
        41 => ("musicgame", Category::MusicGame),
        42 => ("musicgames", Category::MusicGame),
        43 => ("news", Category::News),
        44 => ("photography", Category::Photography),
        45 => ("productivity", Category::Productivity),
        46 => ("puzzlegame", Category::PuzzleGame),
        47 => ("puzzlegames", Category::PuzzleGame),
        48 => ("racinggame", Category::RacingGame),
        49 => ("racinggames", Category::RacingGame),
        50 => ("reference", Category::Reference),
        51 => ("roleplaying", Category::RolePlayingGame),
        52 => ("roleplayinggame", Category::RolePlayingGame),
        53 => ("roleplayinggames", Category::RolePlayingGame),
        54 => ("rpg", Category::RolePlayingGame),
        55 => ("simulationgame", Category::SimulationGame),
        56 => ("simulationgames", Category::SimulationGame),
        57 => ("socialnetwork", Category::SocialNetworking),
        58 => ("socialnetworking", Category::SocialNetworking),
        59 => ("sports", Category::Sports),
        60 => ("sportsgame", Category::SportsGame),
        61 => ("sportsgames", Category::SportsGame),
        62 => ("strategygame", Category::StrategyGame),
        63 => ("strategygames", Category::StrategyGame),
        64 => ("travel", Category::Travel),
        65 => ("triviagame", Category::TriviaGame),
        66 => ("triviagames", Category::TriviaGame),
        67 => ("utilities", Category::Utility),
        68 => ("utility", Category::Utility),
        69 => ("video", Category::Video),
        70 => ("weather", Category::Weather),
        71 => ("wordgame", Category::WordGame),
        72 => ("wordgames", Category::WordGame),
        _ => ("wordgames", Category::WordGame),
    }
}

// ---------- canonicalization ----------

pub open spec fn sep_char(c: char) -> bool {
    c == ' ' || c == '-'
}

/// The non-separator characters of `s` from position `k` on, in order.
pub open spec fn strip_from(s: Seq<char>, k: int) -> Seq<char>
    decreases s.len() - k,
{
    if k < 0 || k >= s.len() {
        Seq::empty()
    } else if sep_char(s[k]) {
        strip_from(s, k + 1)
    } else {
        seq![s[k]] + strip_from(s, k + 1)
    }
}

/// Removes every space and hyphen, keeping the rest in order.
pub open spec fn strip_seps(s: Seq<char>) -> Seq<char> {
    strip_from(s, 0)
}

pub open spec fn osx_prefix() -> Seq<char> {
    "public.app-category."@
}

pub open spec fn strip_prefix_spec(s: Seq<char>) -> Seq<char> {
    if s.len() >= osx_prefix().len() && s.take(osx_prefix().len() as int) == osx_prefix() {
        s.skip(osx_prefix().len() as int)
    } else {
        s
    }
}

/// Lowercase, strip the platform taxonomy prefix, drop spaces and hyphens.
pub open spec fn canon_spec(s: Seq<char>) -> Seq<char> {
    strip_seps(strip_prefix_spec(lower_seq(s)))
}

pub(crate) fn lower_ascii_str(c: char) -> (r: &'static str)
    requires
        'A' <= c && c <= 'Z',
    ensures
        r@ =~= seq![lower_char(c)],
{
    proof {
        reveal_strlit("a");
        reveal_strlit("b");
        reveal_strlit("c");
        reveal_strlit("d");
        reveal_strlit("e");
        reveal_strlit("f");
        reveal_strlit("g");
        reveal_strlit("h");
        reveal_strlit("i");
        reveal_strlit("j");
        reveal_strlit("k");
        reveal_strlit("l");
        reveal_strlit("m");
        reveal_strlit("n");
        reveal_strlit("o");
        reveal_strlit("p");
        reveal_strlit("q");
        reveal_strlit("r");
        reveal_strlit("s");
        reveal_strlit("t");
        reveal_strlit("u");
        reveal_strlit("v");
        reveal_strlit("w");
        reveal_strlit("x");
        reveal_strlit("y");
        reveal_strlit("z");
    }
    match c {
        'A' => "a",
        'B' => "b",
        'C' => "c",
        'D' => "d",
        'E' => "e",
        'F' => "f",
        'G' => "g",
        'H' => "h",
        'I' => "i",
        'J' => "j",
        'K' => "k",
        'L' => "l",
        'M' => "m",
        'N' => "n",
        'O' => "o",
        'P' => "p",
        'Q' => "q",
        'R' => "r",
        'S' => "s",
        'T' => "t",
        'U' => "u",
        'V' => "v",
        'W' => "w",
        'X' => "x",
        'Y' => "y",
        'Z' => "z",
        _ => "z",
    }
}

/// The canonical form of a category string: lowercased, with a known
/// taxonomy prefix stripped and spaces and hyphens removed.
pub fn canonicalize(input: &str) -> (r: String)
    ensures
        r@ == canon_spec(input@),
{
    let n = input.unicode_len();
    let mut low = String::new();
    let mut i: usize = 0;
    while i < n
        invariant
            n == input@.len(),
            i <= n,
            low@ =~= lower_seq(input@.take(i as int)),
        decreases n - i,
    {
        let c = input.get_char(i);
        if 'A' <= c && c <= 'Z' {
            low.append(lower_ascii_str(c));
        } else {
            let piece = input.substring_char(i, i + 1);
            low.append(piece);
            proof {
                assert(piece@ =~= seq![input@[i as int]]);
            }
        }
        i = i + 1;
        proof {
            assert(input@.take(i as int) =~= input@.take(i - 1).push(input@[i - 1]));
            assert(lower_seq(input@.take(i as int)) =~= lower_seq(input@.take(i - 1)).push(
                lower_char(input@[i - 1]),
            ));
            assert(low@ =~= lower_seq(input@.take(i as int)));
        }
    }
    proof {
        assert(input@.take(n as int) =~= input@);
    }
    let ghost lowv = low@;
    proof {
        reveal_strlit("public.app-category.");
        assert(osx_prefix().len() == 20);
    }
    let stripped: String = if low.as_str().unicode_len() >= 20 {
        let head = String::from_str(low.as_str().substring_char(0, 20));
        let prefix = String::from_str("public.app-category.");
        if head.eq(&prefix) {
            let len = low.as_str().unicode_len();
            let tail = String::from_str(low.as_str().substring_char(20, len));
            proof {
                assert(lowv.take(20) == osx_prefix());
                assert(tail@ =~= strip_prefix_spec(lowv));
            }
            tail
        } else {
            proof {
                assert(low@ =~= strip_prefix_spec(lowv));
            }
            low
        }
    } else {
        proof {
            assert(low@ =~= strip_prefix_spec(lowv));
        }
        low
    };
    let ghost sv = stripped@;
    let m = stripped.as_str().unicode_len();
    let mut out = String::new();
    let mut j: usize = 0;
    while j < m
        invariant
            m == sv.len(),
            sv == stripped@,
            j <= m,
            strip_seps(sv) =~= out@ + strip_from(sv, j as int),
        decreases m - j,
    {
        let c = stripped.as_str().get_char(j);
        if !(c == ' ' || c == '-') {
            let piece = stripped.as_str().substring_char(j, j + 1);
            out.append(piece);
            proof {
                assert(piece@ =~= seq![sv[j as int]]);
                assert(strip_from(sv, j as int) == seq![sv[j as int]] + strip_from(sv, j + 1));
            }
        }
        j = j + 1;
        proof {
            assert(strip_seps(sv) =~= out@ + strip_from(sv, j as int));
        }
    }
    proof {
        assert(strip_from(sv, m as int) =~= Seq::<char>::empty());
        assert(out@ =~= strip_seps(sv));
        assert(out@ =~= canon_spec(input@));
    }
    out
}

// ---------- similarity (trusted) ----------

/// The bit pattern of the Jaro-Winkler similarity of two strings: a pure
/// function of the two character sequences alone.
pub uninterp spec fn similarity_of(a: Seq<char>, b: Seq<char>) -> u64;

/// Relies on strsim::jaro_winkler: a deterministic, pure function of the two
/// strings' characters, returning an IEEE 754 double in `[0, 1]`; the result
/// is handed on as its raw bit pattern, and for doubles in that range the bit
/// patterns compare exactly as the values do.
#[verifier::external_body]
fn jaro_winkler_bits(a: &str, b: &str) -> (r: u64)
    ensures
        r == similarity_of(a@, b@),
{
    strsim::jaro_winkler(a, b).to_bits()
}

// ---------- resolution ----------

/// The first table entry at or after `k` whose alias is exactly `c`, if any.
pub open spec fn exact_from(c: Seq<char>, t: Seq<(Seq<char>, Category)>, k: int) -> Option<
    Category,
>
    decreases t.len() - k,
{
    if k < 0 || k >= t.len() {
        None
    } else if t[k].0 == c {
        Some(t[k].1)
    } else {
        exact_from(c, t, k + 1)
    }
}

/// The first table entry whose alias is exactly `c`, if any.
pub open spec fn exact_match(c: Seq<char>, t: Seq<(Seq<char>, Category)>) -> Option<Category> {
    exact_from(c, t, 0)
}

/// The scan for the best suggestion from entry `k` on: the first entry
/// scoring at least the confidence threshold and strictly above every
/// earlier entry wins.
pub open spec fn best_from(
    c: Seq<char>,
    t: Seq<(Seq<char>, Category)>,
    k: int,
    best_sim: u64,
    best: Option<Category>,
) -> Option<Category>
    decreases t.len() - k,
{
    if k < 0 || k >= t.len() {
        best
    } else {
        let sim = similarity_of(c, t[k].0);
        if sim >= CONFIDENCE_THRESHOLD_BITS && sim > best_sim {
            best_from(c, t, k + 1, sim, Some(t[k].1))
        } else {
            best_from(c, t, k + 1, best_sim, best)
        }
    }
}

/// The scan for the best suggestion over the whole table.
pub open spec fn best_scan(
    c: Seq<char>,
    t: Seq<(Seq<char>, Category)>,
    best_sim: u64,
    best: Option<Category>,
) -> Option<Category> {
    best_from(c, t, 0, best_sim, best)
}

/// What resolving a category string yields: the exact match when the
/// canonical form is in the table, else at most one suggested category.
pub open spec fn resolve_spec(input: Seq<char>) -> Result<Category, Option<Category>> {
    let c = canon_spec(input);
    match exact_match(c, spec_table()) {
        Some(cat) => Ok(cat),
        None => Err(best_scan(c, spec_table(), 0, None)),
    }
}

/// Whether the returned suggestion is the canonical name of the suggested
/// category.
pub open spec fn suggestion_matches(r_err: Option<&'static str>, v_err: Option<Category>) -> bool {
    match (r_err, v_err) {
        (Option::None, Option::None) => true,
        (Option::Some(s), Option::Some(c)) => s@ == canonical_name(c),
        _ => false,
    }
}

impl Category {
    /// Given a string, returns the `Category` it refers to, or the canonical
    /// name of the closest match the user might have intended (if any).
    pub fn from_str(input: &str) -> (r: Result<Category, Option<&'static str>>)
        ensures
            match (r, resolve_spec(input@)) {
                (Result::Ok(rc), Result::Ok(vc)) => rc == vc,
                (Result::Err(re), Result::Err(ve)) => suggestion_matches(re, ve),
                _ => false,
            },
    {
        let c = canonicalize(input);
        let ghost cv = c@;
        let ghost t = spec_table();
        let mut best_sim: u64 = 0;
        let mut best: Option<Category> = None;
        let mut i: usize = 0;
        while i < TABLE_LEN
            invariant
                cv == c@,
                cv == canon_spec(input@),
                t == spec_table(),
                i <= TABLE_LEN,
                t.len() == TABLE_LEN as int,
                exact_match(cv, t) == exact_from(cv, t, i as int),
                best_scan(cv, t, 0, None) == best_from(cv, t, i as int, best_sim, best),
            decreases TABLE_LEN - i,
        {
            let (key, cat) = table_entry(i);
            let key_string = String::from_str(key);
            if c.eq(&key_string) {
                proof {
                    assert(exact_from(cv, t, i as int) == Some(t[i as int].1));
                }
                return Ok(cat);
            }
            let sim = jaro_winkler_bits(c.as_str(), key);
            proof {
                assert(sim == similarity_of(cv, t[i as int].0));
            }
            if sim >= CONFIDENCE_THRESHOLD_BITS && sim > best_sim {
                best_sim = sim;
                best = Some(cat);
            }
            i = i + 1;
        }
        match best {
            None => Err(None),
            Some(cat) => Err(Some(cat.canonical())),
        }
    }
}

// ---------- laws ----------

/// Every character is a plain lowercase ASCII letter, as every table alias is.
pub open spec fn is_plain_lower(s: Seq<char>) -> bool {
    forall|j: int| 0 <= j < s.len() ==> 'a' <= #[trigger] s[j] && s[j] <= 'z'
}

proof fn lemma_plain_at(i: int)
    requires
        0 <= i < spec_table().len(),
    ensures
        is_plain_lower(spec_table()[i].0),
{
    if i == 0 {
        reveal_strlit("actiongame");
        assert(is_plain_lower(spec_table()[0].0));
    } else if i == 1 {
        reveal_strlit("actiongames");
        assert(is_plain_lower(spec_table()[1].0));
    } else if i == 2 {
        reveal_strlit("adventuregame");
        assert(is_plain_lower(spec_table()[2].0));
    } else if i == 3 {
        reveal_strlit("adventuregames");
        assert(is_plain_lower(spec_table()[3].0));
    } else if i == 4 {
        reveal_strlit("arcadegame");
        assert(is_plain_lower(spec_table()[4].0));
    } else if i == 5 {
        reveal_strlit("arcadegames");
        assert(is_plain_lower(spec_table()[5].0));
    } else if i == 6 {
        reveal_strlit("boardgame");
        assert(is_plain_lower(spec_table()[6].0));
    } else if i == 7 {
        reveal_strlit("boardgames");
        assert(is_plain_lower(spec_table()[7].0));
    } else if i == 8 {
        reveal_strlit("business");
        assert(is_plain_lower(spec_table()[8].0));
    } else if i == 9 {
        reveal_strlit("cardgame");
        assert(is_plain_lower(spec_table()[9].0));
    } else if i == 10 {
        reveal_strlit("cardgames");
        assert(is_plain_lower(spec_table()[10].0));
    } else if i == 11 {
        reveal_strlit("casinogame");
        assert(is_plain_lower(spec_table()[11].0));
    } else if i == 12 {
        reveal_strlit("casinogames");
        assert(is_plain_lower(spec_table()[12].0));
    } else if i == 13 {
        reveal_strlit("developer");
        assert(is_plain_lower(spec_table()[13].0));
    } else if i == 14 {
        reveal_strlit("developertool");
        assert(is_plain_lower(spec_table()[14].0));
    } else if i == 15 {
        reveal_strlit("developertools");
        assert(is_plain_lower(spec_table()[15].0));
    } else if i == 16 {
        reveal_strlit("development");
        assert(is_plain_lower(spec_table()[16].0));
    } else if i == 17 {
        reveal_strlit("dicegame");
        assert(is_plain_lower(spec_table()[17].0));
    } else if i == 18 {
        reveal_strlit("dicegames");
        assert(is_plain_lower(spec_table()[18].0));
    } else if i == 19 {
        reveal_strlit("education");
        assert(is_plain_lower(spec_table()[19].0));
    } else if i == 20 {
        reveal_strlit("educationalgame");
        assert(is_plain_lower(spec_table()[20].0));
    } else if i == 21 {
        reveal_strlit("educationalgames");
        assert(is_plain_lower(spec_table()[21].0));
    } else if i == 22 {
        reveal_strlit("entertainment");
        assert(is_plain_lower(spec_table()[22].0));
    } else if i == 23 {
        reveal_strlit("familygame");
        assert(is_plain_lower(spec_table()[23].0));
    } else if i == 24 {
        reveal_strlit("familygames");
        assert(is_plain_lower(spec_table()[24].0));
    } else if i == 25 {
        reveal_strlit("finance");
        assert(is_plain_lower(spec_table()[25].0));
    } else if i == 26 {
        reveal_strlit("fitness");
        assert(is_plain_lower(spec_table()[26].0));
    } else if i == 27 {
        reveal_strlit("game");
        assert(is_plain_lower(spec_table()[27].0));
    } else if i == 28 {
        reveal_strlit("games");
        assert(is_plain_lower(spec_table()[28].0));
    } else if i == 29 {
        reveal_strlit("graphicdesign");
        assert(is_plain_lower(spec_table()[29].0));
    } else if i == 30 {
        reveal_strlit("graphicsanddesign");
        assert(is_plain_lower(spec_table()[30].0));
    } else if i == 31 {
        reveal_strlit("graphicsdesign");
        assert(is_plain_lower(spec_table()[31].0));
    } else if i == 32 {
        reveal_strlit("healthcareandfitness");
        assert(is_plain_lower(spec_table()[32].0));
    } else if i == 33 {
        reveal_strlit("healthcarefitness");
        assert(is_plain_lower(spec_table()[33].0));
    } else if i == 34 {
        reveal_strlit("kidsgame");
        assert(is_plain_lower(spec_table()[34].0));
    } else if i == 35 {
        reveal_strlit("kidsgames");
        assert(is_plain_lower(spec_table()[35].0));
    } else if i == 36 {
        reveal_strlit("lifestyle");
        assert(is_plain_lower(spec_table()[36].0));
    } else if i == 37 {
        reveal_strlit("logicgame");
        assert(is_plain_lower(spec_table()[37].0));
    } else if i == 38 {
        reveal_strlit("medical");
        assert(is_plain_lower(spec_table()[38].0));
    } else if i == 39 {
        reveal_strlit("medicalsoftware");
        assert(is_plain_lower(spec_table()[39].0));
    } else if i == 40 {
        reveal_strlit("music");
        assert(is_plain_lower(spec_table()[40].0));
    } else if i == 41 {
        reveal_strlit("musicgame");
        assert(is_plain_lower(spec_table()[41].0));
    } else if i == 42 {
        reveal_strlit("musicgames");
        assert(is_plain_lower(spec_table()[42].0));
    } else if i == 43 {
        reveal_strlit("news");
        assert(is_plain_lower(spec_table()[43].0));
    } else if i == 44 {
        reveal_strlit("photography");
        assert(is_plain_lower(spec_table()[44].0));
    } else if i == 45 {
        reveal_strlit("productivity");
        assert(is_plain_lower(spec_table()[45].0));
    } else if i == 46 {
        reveal_strlit("puzzlegame");
        assert(is_plain_lower(spec_table()[46].0));
    } else if i == 47 {
        reveal_strlit("puzzlegames");
        assert(is_plain_lower(spec_table()[47].0));
    } else if i == 48 {
        reveal_strlit("racinggame");
        assert(is_plain_lower(spec_table()[48].0));
    } else if i == 49 {
        reveal_strlit("racinggames");
        assert(is_plain_lower(spec_table()[49].0));
    } else if i == 50 {
        reveal_strlit("reference");
        assert(is_plain_lower(spec_table()[50].0));
    } else if i == 51 {
        reveal_strlit("roleplaying");
        assert(is_plain_lower(spec_table()[51].0));
    } else if i == 52 {
        reveal_strlit("roleplayinggame");
        assert(is_plain_lower(spec_table()[52].0));
    } else if i == 53 {
        reveal_strlit("roleplayinggames");
        assert(is_plain_lower(spec_table()[53].0));
    } else if i == 54 {
        reveal_strlit("rpg");
        assert(is_plain_lower(spec_table()[54].0));
    } else if i == 55 {
        reveal_strlit("simulationgame");
        assert(is_plain_lower(spec_table()[55].0));
    } else if i == 56 {
        reveal_strlit("simulationgames");
        assert(is_plain_lower(spec_table()[56].0));
    } else if i == 57 {
        reveal_strlit("socialnetwork");
        assert(is_plain_lower(spec_table()[57].0));
    } else if i == 58 {
        reveal_strlit("socialnetworking");
        assert(is_plain_lower(spec_table()[58].0));
    } else if i == 59 {
        reveal_strlit("sports");
        assert(is_plain_lower(spec_table()[59].0));
    } else if i == 60 {
        reveal_strlit("sportsgame");
        assert(is_plain_lower(spec_table()[60].0));
    } else if i == 61 {
        reveal_strlit("sportsgames");
        assert(is_plain_lower(spec_table()[61].0));
    } else if i == 62 {
        reveal_strlit("strategygame");
        assert(is_plain_lower(spec_table()[62].0));
    } else if i == 63 {
        reveal_strlit("strategygames");
        assert(is_plain_lower(spec_table()[63].0));
    } else if i == 64 {
        reveal_strlit("travel");
        assert(is_plain_lower(spec_table()[64].0));
    } else if i == 65 {
        reveal_strlit("triviagame");
        assert(is_plain_lower(spec_table()[65].0));
    } else if i == 66 {
        reveal_strlit("triviagames");
        assert(is_plain_lower(spec_table()[66].0));
    } else if i == 67 {
        reveal_strlit("utilities");
        assert(is_plain_lower(spec_table()[67].0));
    } else if i == 68 {
        reveal_strlit("utility");
        assert(is_plain_lower(spec_table()[68].0));
    } else if i == 69 {
        reveal_strlit("video");
        assert(is_plain_lower(spec_table()[69].0));
    } else if i == 70 {
        reveal_strlit("weather");
        assert(is_plain_lower(spec_table()[70].0));
    } else if i == 71 {
        reveal_strlit("wordgame");
        assert(is_plain_lower(spec_table()[71].0));
    } else if i == 72 {
        reveal_strlit("wordgames");
        assert(is_plain_lower(spec_table()[72].0));
    }
}

proof fn lemma_exact_from_some(c: Seq<char>, t: Seq<(Seq<char>, Category)>, k: int)
    requires
        exact_from(c, t, k) is Some,
    ensures
        exists|i: int| 0 <= i < t.len() && (#[trigger] t[i]).0 == c,
    decreases t.len() - k,
{
    if k < 0 || k >= t.len() {
    } else if t[k].0 == c {
        assert(t[k].0 == c);
    } else {
        lemma_exact_from_some(c, t, k + 1);
    }
}

proof fn lemma_strip_from_id(s: Seq<char>, k: int)
    requires
        0 <= k <= s.len(),
        forall|j: int| k <= j < s.len() ==> !sep_char(#[trigger] s[j]),
    ensures
        strip_from(s, k) == s.skip(k),
    decreases s.len() - k,
{
    if k >= s.len() {
        assert(s.skip(k) =~= Seq::<char>::empty());
    } else {
        lemma_strip_from_id(s, k + 1);
        assert(strip_from(s, k) =~= seq![s[k]] + s.skip(k + 1));
        assert(seq![s[k]] + s.skip(k + 1) =~= s.skip(k));
    }
}

proof fn lemma_strip_seps_id(s: Seq<char>)
    requires
        forall|j: int| 0 <= j < s.len() ==> !sep_char(#[trigger] s[j]),
    ensures
        strip_seps(s) == s,
{
    lemma_strip_from_id(s, 0);
    assert(s.skip(0) =~= s);
}

proof fn lemma_canon_plain(s: Seq<char>)
    requires
        is_plain_lower(s),
    ensures
        canon_spec(s) == s,
{
    assert(lower_seq(s) =~= s);
    reveal_strlit("public.app-category.");
    if s.len() >= osx_prefix().len() && s.take(osx_prefix().len() as int) == osx_prefix() {
        assert(s[6] == osx_prefix()[6]);
        assert(osx_prefix()[6] == '.');
        assert(false);
    }
    assert(strip_prefix_spec(lower_seq(s)) == s);
    assert(forall|j: int| 0 <= j < s.len() ==> !sep_char(#[trigger] s[j]));
    lemma_strip_seps_id(s);
}

/// Every alias in the table resolves to the category the table associates
/// with it; an exact match is never shadowed by a fuzzy suggestion.
pub proof fn lemma_alias_resolves(s: Seq<char>, cat: Category)
    requires
        exact_match(s, spec_table()) == Some(cat),
    ensures
        resolve_spec(s) == Ok::<Category, Option<Category>>(cat),
{
    lemma_exact_from_some(s, spec_table(), 0);
    let i = choose|i: int| 0 <= i < spec_table().len() && (#[trigger] spec_table()[i]).0 == s;
    lemma_plain_at(i);
    lemma_canon_plain(s);
}

proof fn lemma_strip_from_pred(s: Seq<char>, k: int, p: spec_fn(char) -> bool)
    requires
        forall|j: int| 0 <= j < s.len() ==> p(#[trigger] s[j]),
    ensures
        forall|i: int| 0 <= i < strip_from(s, k).len() ==> p(#[trigger] strip_from(s, k)[i]),
    decreases s.len() - k,
{
    if k < 0 || k >= s.len() {
    } else {
        lemma_strip_from_pred(s, k + 1, p);
        assert forall|i: int| 0 <= i < strip_from(s, k).len() implies p(
            #[trigger] strip_from(s, k)[i],
        ) by {
            if !sep_char(s[k]) {
                if i == 0 {
                    assert(strip_from(s, k)[0] == s[k]);
                } else {
                    assert(strip_from(s, k)[i] == strip_from(s, k + 1)[i - 1]);
                }
            } else {
                assert(strip_from(s, k) == strip_from(s, k + 1));
                assert(p(strip_from(s, k + 1)[i]));
            }
        }
    }
}

proof fn lemma_strip_from_no_seps(s: Seq<char>, k: int)
    ensures
        forall|i: int|
            0 <= i < strip_from(s, k).len() ==> !sep_char(#[trigger] strip_from(s, k)[i]),
    decreases s.len() - k,
{
    if k < 0 || k >= s.len() {
    } else {
        lemma_strip_from_no_seps(s, k + 1);
        assert forall|i: int| 0 <= i < strip_from(s, k).len() implies !sep_char(
            #[trigger] strip_from(s, k)[i],
        ) by {
            if !sep_char(s[k]) {
                if i == 0 {
                    assert(strip_from(s, k)[0] == s[k]);
                } else {
                    assert(strip_from(s, k)[i] == strip_from(s, k + 1)[i - 1]);
                }
            } else {
                assert(strip_from(s, k) == strip_from(s, k + 1));
                assert(!sep_char(strip_from(s, k + 1)[i]));
            }
        }
    }
}

/// Canonicalization is idempotent: canonicalizing a canonical form changes
/// nothing.
pub proof fn lemma_canonicalize_idempotent(s: Seq<char>)
    ensures
        canon_spec(canon_spec(s)) == canon_spec(s),
{
    let l = lower_seq(s);
    let p = strip_prefix_spec(l);
    let c = canon_spec(s);
    let no_upper = |ch: char| !('A' <= ch && ch <= 'Z');
    assert(forall|j: int| 0 <= j < l.len() ==> no_upper(#[trigger] l[j]));
    assert(forall|j: int| 0 <= j < p.len() ==> no_upper(#[trigger] p[j])) by {
        if l.len() >= osx_prefix().len() && l.take(osx_prefix().len() as int) == osx_prefix() {
            assert(forall|j: int|
                0 <= j < p.len() ==> p[j] == l[j + osx_prefix().len()]);
        }
    }
    lemma_strip_from_pred(p, 0, no_upper);
    assert(lower_seq(c) =~= c);
    lemma_strip_from_no_seps(p, 0);
    reveal_strlit("public.app-category.");
    if c.len() >= osx_prefix().len() && c.take(osx_prefix().len() as int) == osx_prefix() {
        assert(c[10] == osx_prefix()[10]);
        assert(osx_prefix()[10] == '-');
        assert(sep_char(c[10]));
        assert(false);
    }
    assert(strip_prefix_spec(lower_seq(c)) == c);
    lemma_strip_seps_id(c);
}

/// Resolving a string and resolving its canonical form agree.
pub proof fn lemma_resolve_of_canonical(s: Seq<char>)
    ensures
        resolve_spec(canon_spec(s)) == resolve_spec(s),
{
    lemma_canonicalize_idempotent(s);
}

} // verus!

verus! {

/// The length of every alias in the table.
proof fn lemma_key_lengths()
    ensures
        ("actiongame"@).len() == 10,
        ("actiongames"@).len() == 11,
        ("adventuregame"@).len() == 13,
        ("adventuregames"@).len() == 14,
        ("arcadegame"@).len() == 10,
        ("arcadegames"@).len() == 11,
        ("boardgame"@).len() == 9,
        ("boardgames"@).len() == 10,
        ("business"@).len() == 8,
        ("cardgame"@).len() == 8,
        ("cardgames"@).len() == 9,
        ("casinogame"@).len() == 10,
        ("casinogames"@).len() == 11,
        ("developer"@).len() == 9,
        ("developertool"@).len() == 13,
        ("developertools"@).len() == 14,
        ("development"@).len() == 11,
        ("dicegame"@).len() == 8,
        ("dicegames"@).len() == 9,
        ("education"@).len() == 9,
        ("educationalgame"@).len() == 15,
        ("educationalgames"@).len() == 16,
        ("entertainment"@).len() == 13,
        ("familygame"@).len() == 10,
        ("familygames"@).len() == 11,
        ("finance"@).len() == 7,
        ("fitness"@).len() == 7,
        ("game"@).len() == 4,
        ("games"@).len() == 5,
        ("graphicdesign"@).len() == 13,
        ("graphicsanddesign"@).len() == 17,
        ("graphicsdesign"@).len() == 14,
        ("healthcareandfitness"@).len() == 20,
        ("healthcarefitness"@).len() == 17,
        ("kidsgame"@).len() == 8,
        ("kidsgames"@).len() == 9,
        ("lifestyle"@).len() == 9,
        ("logicgame"@).len() == 9,
        ("medical"@).len() == 7,
        ("medicalsoftware"@).len() == 15,
        ("music"@).len() == 5,
        ("musicgame"@).len() == 9,
        ("musicgames"@).len() == 10,
        ("news"@).len() == 4,
        ("photography"@).len() == 11,
        ("productivity"@).len() == 12,
        ("puzzlegame"@).len() == 10,
        ("puzzlegames"@).len() == 11,
        ("racinggame"@).len() == 10,
        ("racinggames"@).len() == 11,
        ("reference"@).len() == 9,
        ("roleplaying"@).len() == 11,
        ("roleplayinggame"@).len() == 15,
        ("roleplayinggames"@).len() == 16,
        ("rpg"@).len() == 3,
        ("simulationgame"@).len() == 14,
        ("simulationgames"@).len() == 15,
        ("socialnetwork"@).len() == 13,
        ("socialnetworking"@).len() == 16,
        ("sports"@).len() == 6,
        ("sportsgame"@).len() == 10,
        ("sportsgames"@).len() == 11,
        ("strategygame"@).len() == 12,
        ("strategygames"@).len() == 13,
        ("travel"@).len() == 6,
        ("triviagame"@).len() == 10,
        ("triviagames"@).len() == 11,
        ("utilities"@).len() == 9,
        ("utility"@).len() == 7,
        ("video"@).len() == 5,
        ("weather"@).len() == 7,
        ("wordgame"@).len() == 8,
        ("wordgames"@).len() == 9,
{
    reveal_strlit("actiongame");
    reveal_strlit("actiongames");
    reveal_strlit("adventuregame");
    reveal_strlit("adventuregames");
    reveal_strlit("arcadegame");
    reveal_strlit("arcadegames");
    reveal_strlit("boardgame");
    reveal_strlit("boardgames");
    reveal_strlit("business");
    reveal_strlit("cardgame");
    reveal_strlit("cardgames");
    reveal_strlit("casinogame");
    reveal_strlit("casinogames");
    reveal_strlit("developer");
    reveal_strlit("developertool");
    reveal_strlit("developertools");
    reveal_strlit("development");
    reveal_strlit("dicegame");
    reveal_strlit("dicegames");
    reveal_strlit("education");
    reveal_strlit("educationalgame");
    reveal_strlit("educationalgames");
    reveal_strlit("entertainment");
    reveal_strlit("familygame");
    reveal_strlit("familygames");
    reveal_strlit("finance");
    reveal_strlit("fitness");
    reveal_strlit("game");
    reveal_strlit("games");
    reveal_strlit("graphicdesign");
    reveal_strlit("graphicsanddesign");
    reveal_strlit("graphicsdesign");
    reveal_strlit("healthcareandfitness");
    reveal_strlit("healthcarefitness");
    reveal_strlit("kidsgame");
    reveal_strlit("kidsgames");
    reveal_strlit("lifestyle");
    reveal_strlit("logicgame");
    reveal_strlit("medical");
    reveal_strlit("medicalsoftware");
    reveal_strlit("music");
    reveal_strlit("musicgame");
    reveal_strlit("musicgames");
    reveal_strlit("news");
    reveal_strlit("photography");
    reveal_strlit("productivity");
    reveal_strlit("puzzlegame");
    reveal_strlit("puzzlegames");
    reveal_strlit("racinggame");
    reveal_strlit("racinggames");
    reveal_strlit("reference");
    reveal_strlit("roleplaying");
    reveal_strlit("roleplayinggame");
    reveal_strlit("roleplayinggames");
    reveal_strlit("rpg");
    reveal_strlit("simulationgame");
    reveal_strlit("simulationgames");
    reveal_strlit("socialnetwork");
    reveal_strlit("socialnetworking");
    reveal_strlit("sports");
    reveal_strlit("sportsgame");
    reveal_strlit("sportsgames");
    reveal_strlit("strategygame");
    reveal_strlit("strategygames");
    reveal_strlit("travel");
    reveal_strlit("triviagame");
    reveal_strlit("triviagames");
    reveal_strlit("utilities");
    reveal_strlit("utility");
    reveal_strlit("video");
    reveal_strlit("weather");
    reveal_strlit("wordgame");
    reveal_strlit("wordgames");
}

/// Enough characters of the aliases to tell equal-length aliases apart.
proof fn lemma_key_chars()
    ensures
        ("actiongame"@)[0] == 'a',
        ("actiongame"@)[1] == 'c',
        ("actiongames"@)[0] == 'a',
        ("actiongames"@)[1] == 'c',
        ("adventuregame"@)[0] == 'a',
        ("adventuregames"@)[0] == 'a',
        ("arcadegame"@)[0] == 'a',
        ("arcadegame"@)[1] == 'r',
        ("arcadegames"@)[0] == 'a',
        ("arcadegames"@)[1] == 'r',
        ("boardgame"@)[0] == 'b',
        ("boardgames"@)[0] == 'b',
        ("business"@)[0] == 'b',
        ("cardgame"@)[0] == 'c',
        ("cardgames"@)[0] == 'c',
        ("casinogame"@)[0] == 'c',
        ("casinogames"@)[0] == 'c',
        ("developer"@)[0] == 'd',
        ("developer"@)[1] == 'e',
        ("developertool"@)[0] == 'd',
        ("developertools"@)[0] == 'd',
        ("development"@)[0] == 'd',
        ("dicegame"@)[0] == 'd',
        ("dicegames"@)[0] == 'd',
        ("dicegames"@)[1] == 'i',
        ("education"@)[0] == 'e',
        ("educationalgame"@)[0] == 'e',
        ("educationalgames"@)[0] == 'e',
        ("entertainment"@)[0] == 'e',
        ("familygame"@)[0] == 'f',
        ("familygames"@)[0] == 'f',
        ("finance"@)[0] == 'f',
        ("finance"@)[2] == 'n',
        ("fitness"@)[0] == 'f',
        ("fitness"@)[2] == 't',
        ("game"@)[0] == 'g',
        ("games"@)[0] == 'g',
        ("graphicdesign"@)[0] == 'g',
        ("graphicsanddesign"@)[0] == 'g',
        ("graphicsdesign"@)[0] == 'g',
        ("healthcarefitness"@)[0] == 'h',
        ("kidsgame"@)[0] == 'k',
        ("kidsgames"@)[0] == 'k',
        ("lifestyle"@)[0] == 'l',
        ("lifestyle"@)[1] == 'i',
        ("logicgame"@)[0] == 'l',
        ("logicgame"@)[1] == 'o',
        ("medical"@)[0] == 'm',
        ("medicalsoftware"@)[0] == 'm',
        ("music"@)[0] == 'm',
        ("musicgame"@)[0] == 'm',
        ("musicgames"@)[0] == 'm',
        ("news"@)[0] == 'n',
        ("photography"@)[0] == 'p',
        ("photography"@)[1] == 'h',
        ("productivity"@)[0] == 'p',
        ("puzzlegame"@)[0] == 'p',
        ("puzzlegames"@)[0] == 'p',
        ("puzzlegames"@)[1] == 'u',
        ("racinggame"@)[0] == 'r',
        ("racinggames"@)[0] == 'r',
        ("racinggames"@)[1] == 'a',
        ("reference"@)[0] == 'r',
        ("roleplaying"@)[0] == 'r',
        ("roleplaying"@)[1] == 'o',
        ("roleplayinggame"@)[0] == 'r',
        ("roleplayinggames"@)[0] == 'r',
        ("simulationgame"@)[0] == 's',
        ("simulationgames"@)[0] == 's',
        ("socialnetwork"@)[0] == 's',
        ("socialnetwork"@)[1] == 'o',
        ("socialnetworking"@)[0] == 's',
        ("sports"@)[0] == 's',
        ("sportsgame"@)[0] == 's',
        ("sportsgames"@)[0] == 's',
        ("strategygame"@)[0] == 's',
        ("strategygames"@)[0] == 's',
        ("strategygames"@)[1] == 't',
        ("travel"@)[0] == 't',
        ("triviagame"@)[0] == 't',
        ("triviagames"@)[0] == 't',
        ("utilities"@)[0] == 'u',
        ("utility"@)[0] == 'u',
        ("video"@)[0] == 'v',
        ("weather"@)[0] == 'w',
        ("wordgame"@)[0] == 'w',
        ("wordgames"@)[0] == 'w',
{
    reveal_strlit("actiongame");
    reveal_strlit("actiongames");
    reveal_strlit("adventuregame");
    reveal_strlit("adventuregames");
    reveal_strlit("arcadegame");
    reveal_strlit("arcadegames");
    reveal_strlit("boardgame");
    reveal_strlit("boardgames");
    reveal_strlit("business");
    reveal_strlit("cardgame");
    reveal_strlit("cardgames");
    reveal_strlit("casinogame");
    reveal_strlit("casinogames");
    reveal_strlit("developer");
    reveal_strlit("developertool");
    reveal_strlit("developertools");
    reveal_strlit("development");
    reveal_strlit("dicegame");
    reveal_strlit("dicegames");
    reveal_strlit("education");
    reveal_strlit("educationalgame");
    reveal_strlit("educationalgames");
    reveal_strlit("entertainment");
    reveal_strlit("familygame");
    reveal_strlit("familygames");
    reveal_strlit("finance");
    reveal_strlit("fitness");
    reveal_strlit("game");
    reveal_strlit("games");
    reveal_strlit("graphicdesign");
    reveal_strlit("graphicsanddesign");
    reveal_strlit("graphicsdesign");
    reveal_strlit("healthcarefitness");
    reveal_strlit("kidsgame");
    reveal_strlit("kidsgames");
    reveal_strlit("lifestyle");
    reveal_strlit("logicgame");
    reveal_strlit("medical");
    reveal_strlit("medicalsoftware");
    reveal_strlit("music");
    reveal_strlit("musicgame");
    reveal_strlit("musicgames");
    reveal_strlit("news");
    reveal_strlit("photography");
    reveal_strlit("productivity");
    reveal_strlit("puzzlegame");
    reveal_strlit("puzzlegames");
    reveal_strlit("racinggame");
    reveal_strlit("racinggames");
    reveal_strlit("reference");
    reveal_strlit("roleplaying");
    reveal_strlit("roleplayinggame");
    reveal_strlit("roleplayinggames");
    reveal_strlit("simulationgame");
    reveal_strlit("simulationgames");
    reveal_strlit("socialnetwork");
    reveal_strlit("socialnetworking");
    reveal_strlit("sports");
    reveal_strlit("sportsgame");
    reveal_strlit("sportsgames");
    reveal_strlit("strategygame");
    reveal_strlit("strategygames");
    reveal_strlit("travel");
    reveal_strlit("triviagame");
    reveal_strlit("triviagames");
    reveal_strlit("utilities");
    reveal_strlit("utility");
    reveal_strlit("video");
    reveal_strlit("weather");
    reveal_strlit("wordgame");
    reveal_strlit("wordgames");
}

proof fn lemma_osx_rt_business()
    ensures
        resolve_spec(osx_category_type(Category::Business)) == Ok::<Category, Option<Category>>(Category::Business),
{
    lemma_key_lengths();
    lemma_key_chars();
    reveal_strlit("public.app-category.business");
    reveal_strlit("public.app-category.");
    reveal_strlit("business");
    let v = "public.app-category.business"@;
    let key = "business"@;
    assert(v.len() == 28);
    assert(lower_seq(v) =~= v);
    assert(v.take(20) =~= osx_prefix());
    assert(strip_prefix_spec(lower_seq(v)) =~= v.skip(20));
    reveal_with_fuel(strip_from, 11);
    assert(canon_spec(v) =~= key);
    reveal_with_fuel(exact_from, 11);
    assert(exact_match(key, spec_table()) == Some(Category::Business));
}

proof fn lemma_osx_rt_developertools()
    ensures
        resolve_spec(osx_category_type(Category::DeveloperTool)) == Ok::<Category, Option<Category>>(Category::DeveloperTool),
{
    lemma_key_lengths();
    lemma_key_chars();
    reveal_strlit("public.app-category.developer-tools");
    reveal_strlit("public.app-category.");
    reveal_strlit("developertools");
    let v = "public.app-category.developer-tools"@;
    let key = "developertools"@;
    assert(v.len() == 35);
    assert(lower_seq(v) =~= v);
    assert(v.take(20) =~= osx_prefix());
    assert(strip_prefix_spec(lower_seq(v)) =~= v.skip(20));
    reveal_with_fuel(strip_from, 18);
    assert(canon_spec(v) =~= key);
    reveal_with_fuel(exact_from, 18);
    assert(exact_match(key, spec_table()) == Some(Category::DeveloperTool));
}

proof fn lemma_osx_rt_education()
    ensures
        resolve_spec(osx_category_type(Category::Education)) == Ok::<Category, Option<Category>>(Category::Education),
{
    lemma_key_lengths();
    lemma_key_chars();
    reveal_strlit("public.app-category.education");
    reveal_strlit("public.app-category.");
    reveal_strlit("education");
    let v = "public.app-category.education"@;
    let key = "education"@;
    assert(v.len() == 29);
    assert(lower_seq(v) =~= v);
    assert(v.take(20) =~= osx_prefix());
    assert(strip_prefix_spec(lower_seq(v)) =~= v.skip(20));
    reveal_with_fuel(strip_from, 12);
    assert(canon_spec(v) =~= key);
    reveal_with_fuel(exact_from, 22);
    assert(exact_match(key, spec_table()) == Some(Category::Education));
}

proof fn lemma_osx_rt_entertainment()
    ensures
        resolve_spec(osx_category_type(Category::Entertainment)) == Ok::<Category, Option<Category>>(Category::Entertainment),
{
    lemma_key_lengths();
    lemma_key_chars();
    reveal_strlit("public.app-category.entertainment");
    reveal_strlit("public.app-category.");
    reveal_strlit("entertainment");
    let v = "public.app-category.entertainment"@;
    let key = "entertainment"@;
    assert(v.len() == 33);
    assert(lower_seq(v) =~= v);
    assert(v.take(20) =~= osx_prefix());
    assert(strip_prefix_spec(lower_seq(v)) =~= v.skip(20));
    reveal_with_fuel(strip_from, 16);
    assert(canon_spec(v) =~= key);
    reveal_with_fuel(exact_from, 25);
    assert(exact_match(key, spec_table()) == Some(Category::Entertainment));
}

proof fn lemma_osx_rt_finance()
    ensures
        resolve_spec(osx_category_type(Category::Finance)) == Ok::<Category, Option<Category>>(Category::Finance),
{
    lemma_key_lengths();
    lemma_key_chars();
    reveal_strlit("public.app-category.finance");
    reveal_strlit("public.app-category.");
    reveal_strlit("finance");
    let v = "public.app-category.finance"@;
    let key = "finance"@;
    assert(v.len() == 27);
    assert(lower_seq(v) =~= v);
    assert(v.take(20) =~= osx_prefix());
    assert(strip_prefix_spec(lower_seq(v)) =~= v.skip(20));
    reveal_with_fuel(strip_from, 10);
    assert(canon_spec(v) =~= key);
    reveal_with_fuel(exact_from, 28);
    assert(exact_match(key, spec_table()) == Some(Category::Finance));
}

proof fn lemma_osx_rt_games()
    ensures
        resolve_spec(osx_category_type(Category::Game)) == Ok::<Category, Option<Category>>(Category::Game),
{
    lemma_key_lengths();
    lemma_key_chars();
    reveal_strlit("public.app-category.games");
    reveal_strlit("public.app-category.");
    reveal_strlit("games");
    let v = "public.app-category.games"@;
    let key = "games"@;
    assert(v.len() == 25);
    assert(lower_seq(v) =~= v);
    assert(v.take(20) =~= osx_prefix());
    assert(strip_prefix_spec(lower_seq(v)) =~= v.skip(20));
    reveal_with_fuel(strip_from, 8);
    assert(canon_spec(v) =~= key);
    reveal_with_fuel(exact_from, 31);
    assert(exact_match(key, spec_table()) == Some(Category::Game));
}

proof fn lemma_osx_rt_actiongames()
    ensures
        resolve_spec(osx_category_type(Category::ActionGame)) == Ok::<Category, Option<Category>>(Category::ActionGame),
{
    lemma_key_lengths();
    lemma_key_chars();
    reveal_strlit("public.app-category.action-games");
    reveal_strlit("public.app-category.");
    reveal_strlit("actiongames");
    let v = "public.app-category.action-games"@;
    let key = "actiongames"@;
    assert(v.len() == 32);
    assert(lower_seq(v) =~= v);
    assert(v.take(20) =~= osx_prefix());
    assert(strip_prefix_spec(lower_seq(v)) =~= v.skip(20));
    reveal_with_fuel(strip_from, 15);
    assert(canon_spec(v) =~= key);
    reveal_with_fuel(exact_from, 4);
    assert(exact_match(key, spec_table()) == Some(Category::ActionGame));
}

proof fn lemma_osx_rt_adventuregames()
    ensures
        resolve_spec(osx_category_type(Category::AdventureGame)) == Ok::<Category, Option<Category>>(Category::AdventureGame),
{
    lemma_key_lengths();
    lemma_key_chars();
    reveal_strlit("public.app-category.adventure-games");
    reveal_strlit("public.app-category.");
    reveal_strlit("adventuregames");
    let v = "public.app-category.adventure-games"@;
    let key = "adventuregames"@;
    assert(v.len() == 35);
    assert(lower_seq(v) =~= v);
    assert(v.take(20) =~= osx_prefix());
    assert(strip_prefix_spec(lower_seq(v)) =~= v.skip(20));
    reveal_with_fuel(strip_from, 18);
    assert(canon_spec(v) =~= key);
    reveal_with_fuel(exact_from, 6);
    assert(exact_match(key, spec_table()) == Some(Category::AdventureGame));
}

proof fn lemma_osx_rt_arcadegames()
    ensures
        resolve_spec(osx_category_type(Category::ArcadeGame)) == Ok::<Category, Option<Category>>(Category::ArcadeGame),
{
    lemma_key_lengths();
    lemma_key_chars();
    reveal_strlit("public.app-category.arcade-games");
    reveal_strlit("public.app-category.");
    reveal_strlit("arcadegames");
    let v = "public.app-category.arcade-games"@;
    let key = "arcadegames"@;
    assert(v.len() == 32);
    assert(lower_seq(v) =~= v);
    assert(v.take(20) =~= osx_prefix());
    assert(strip_prefix_spec(lower_seq(v)) =~= v.skip(20));
    reveal_with_fuel(strip_from, 15);
    assert(canon_spec(v) =~= key);
    reveal_with_fuel(exact_from, 8);
    assert(exact_match(key, spec_table()) == Some(Category::ArcadeGame));
}

proof fn lemma_osx_rt_boardgames()
    ensures
        resolve_spec(osx_category_type(Category::BoardGame)) == Ok::<Category, Option<Category>>(Category::BoardGame),
{
    lemma_key_lengths();
    lemma_key_chars();
    reveal_strlit("public.app-category.board-games");
    reveal_strlit("public.app-category.");
    reveal_strlit("boardgames");
    let v = "public.app-category.board-games"@;
    let key = "boardgames"@;
    assert(v.len() == 31);
    assert(lower_seq(v) =~= v);
    assert(v.take(20) =~= osx_prefix());
    assert(strip_prefix_spec(lower_seq(v)) =~= v.skip(20));
    reveal_with_fuel(strip_from, 14);
    assert(canon_spec(v) =~= key);
    reveal_with_fuel(exact_from, 10);
    assert(exact_match(key, spec_table()) == Some(Category::BoardGame));
}

proof fn lemma_osx_rt_cardgames()
    ensures
        resolve_spec(osx_category_type(Category::CardGame)) == Ok::<Category, Option<Category>>(Category::CardGame),
{
    lemma_key_lengths();
    lemma_key_chars();
    reveal_strlit("public.app-category.card-games");
    reveal_strlit("public.app-category.");
    reveal_strlit("cardgames");
    let v = "public.app-category.card-games"@;
    let key = "cardgames"@;
    assert(v.len() == 30);
    assert(lower_seq(v) =~= v);
    assert(v.take(20) =~= osx_prefix());
    assert(strip_prefix_spec(lower_seq(v)) =~= v.skip(20));
    reveal_with_fuel(strip_from, 13);
    assert(canon_spec(v) =~= key);
    reveal_with_fuel(exact_from, 13);
    assert(exact_match(key, spec_table()) == Some(Category::CardGame));
}

proof fn lemma_osx_rt_casinogames()
    ensures
        resolve_spec(osx_category_type(Category::CasinoGame)) == Ok::<Category, Option<Category>>(Category::CasinoGame),
{
    lemma_key_lengths();
    lemma_key_chars();
    reveal_strlit("public.app-category.casino-games");
    reveal_strlit("public.app-category.");
    reveal_strlit("casinogames");
    let v = "public.app-category.casino-games"@;
    let key = "casinogames"@;
    assert(v.len() == 32);
    assert(lower_seq(v) =~= v);
    assert(v.take(20) =~= osx_prefix());
    assert(strip_prefix_spec(lower_seq(v)) =~= v.skip(20));
    reveal_with_fuel(strip_from, 15);
    assert(canon_spec(v) =~= key);
    reveal_with_fuel(exact_from, 15);
    assert(exact_match(key, spec_table()) == Some(Category::CasinoGame));
}

proof fn lemma_osx_rt_dicegames()
    ensures
        resolve_spec(osx_category_type(Category::DiceGame)) == Ok::<Category, Option<Category>>(Category::DiceGame),
{
    lemma_key_lengths();
    lemma_key_chars();
    reveal_strlit("public.app-category.dice-games");
    reveal_strlit("public.app-category.");
    reveal_strlit("dicegames");
    let v = "public.app-category.dice-games"@;
    let key = "dicegames"@;
    assert(v.len() == 30);
    assert(lower_seq(v) =~= v);
    assert(v.take(20) =~= osx_prefix());
    assert(strip_prefix_spec(lower_seq(v)) =~= v.skip(20));
    reveal_with_fuel(strip_from, 13);
    assert(canon_spec(v) =~= key);
    reveal_with_fuel(exact_from, 21);
    assert(exact_match(key, spec_table()) == Some(Category::DiceGame));
}

proof fn lemma_osx_rt_educationalgames()
    ensures
        resolve_spec(osx_category_type(Category::EducationalGame)) == Ok::<Category, Option<Category>>(Category::EducationalGame),
{
    lemma_key_lengths();
    lemma_key_chars();
    reveal_strlit("public.app-category.educational-games");
    reveal_strlit("public.app-category.");
    reveal_strlit("educationalgames");
    let v = "public.app-category.educational-games"@;
    let key = "educationalgames"@;
    assert(v.len() == 37);
    assert(lower_seq(v) =~= v);
    assert(v.take(20) =~= osx_prefix());
    assert(strip_prefix_spec(lower_seq(v)) =~= v.skip(20));
    reveal_with_fuel(strip_from, 20);
    assert(canon_spec(v) =~= key);
    reveal_with_fuel(exact_from, 24);
    assert(exact_match(key, spec_table()) == Some(Category::EducationalGame));
}

proof fn lemma_osx_rt_familygames()
    ensures
        resolve_spec(osx_category_type(Category::FamilyGame)) == Ok::<Category, Option<Category>>(Category::FamilyGame),
{
    lemma_key_lengths();
    lemma_key_chars();
    reveal_strlit("public.app-category.family-games");
    reveal_strlit("public.app-category.");
    reveal_strlit("familygames");
    let v = "public.app-category.family-games"@;
    let key = "familygames"@;
    assert(v.len() == 32);
    assert(lower_seq(v) =~= v);
    assert(v.take(20) =~= osx_prefix());
    assert(strip_prefix_spec(lower_seq(v)) =~= v.skip(20));
    reveal_with_fuel(strip_from, 15);
    assert(canon_spec(v) =~= key);
    reveal_with_fuel(exact_from, 27);
    assert(exact_match(key, spec_table()) == Some(Category::FamilyGame));
}

proof fn lemma_osx_rt_kidsgames()
    ensures
        resolve_spec(osx_category_type(Category::KidsGame)) == Ok::<Category, Option<Category>>(Category::KidsGame),
{
    lemma_key_lengths();
    lemma_key_chars();
    reveal_strlit("public.app-category.kids-games");
    reveal_strlit("public.app-category.");
    reveal_strlit("kidsgames");
    let v = "public.app-category.kids-games"@;
    let key = "kidsgames"@;
    assert(v.len() == 30);
    assert(lower_seq(v) =~= v);
    assert(v.take(20) =~= osx_prefix());
    assert(strip_prefix_spec(lower_seq(v)) =~= v.skip(20));
    reveal_with_fuel(strip_from, 13);
    assert(canon_spec(v) =~= key);
    reveal_with_fuel(exact_from, 38);
    assert(exact_match(key, spec_table()) == Some(Category::KidsGame));
}

proof fn lemma_osx_rt_musicgames()
    ensures
        resolve_spec(osx_category_type(Category::MusicGame)) == Ok::<Category, Option<Category>>(Category::MusicGame),
{
    lemma_key_lengths();
    lemma_key_chars();
    reveal_strlit("public.app-category.music-games");
    reveal_strlit("public.app-category.");
    reveal_strlit("musicgames");
    let v = "public.app-category.music-games"@;
    let key = "musicgames"@;
    assert(v.len() == 31);
    assert(lower_seq(v) =~= v);
    assert(v.take(20) =~= osx_prefix());
    assert(strip_prefix_spec(lower_seq(v)) =~= v.skip(20));
    reveal_with_fuel(strip_from, 14);
    assert(canon_spec(v) =~= key);
    reveal_with_fuel(exact_from, 45);
    assert(exact_match(key, spec_table()) == Some(Category::MusicGame));
}

proof fn lemma_osx_rt_puzzlegames()
    ensures
        resolve_spec(osx_category_type(Category::PuzzleGame)) == Ok::<Category, Option<Category>>(Category::PuzzleGame),
{
    lemma_key_lengths();
    lemma_key_chars();
    reveal_strlit("public.app-category.puzzle-games");
    reveal_strlit("public.app-category.");
    reveal_strlit("puzzlegames");
    let v = "public.app-category.puzzle-games"@;
    let key = "puzzlegames"@;
    assert(v.len() == 32);
    assert(lower_seq(v) =~= v);
    assert(v.take(20) =~= osx_prefix());
    assert(strip_prefix_spec(lower_seq(v)) =~= v.skip(20));
    reveal_with_fuel(strip_from, 15);
    assert(canon_spec(v) =~= key);
    reveal_with_fuel(exact_from, 50);
    assert(exact_match(key, spec_table()) == Some(Category::PuzzleGame));
}

proof fn lemma_osx_rt_racinggames()
    ensures
        resolve_spec(osx_category_type(Category::RacingGame)) == Ok::<Category, Option<Category>>(Category::RacingGame),
{
    lemma_key_lengths();
    lemma_key_chars();
    reveal_strlit("public.app-category.racing-games");
    reveal_strlit("public.app-category.");
    reveal_strlit("racinggames");
    let v = "public.app-category.racing-games"@;
    let key = "racinggames"@;
    assert(v.len() == 32);
    assert(lower_seq(v) =~= v);
    assert(v.take(20) =~= osx_prefix());
    assert(strip_prefix_spec(lower_seq(v)) =~= v.skip(20));
    reveal_with_fuel(strip_from, 15);
    assert(canon_spec(v) =~= key);
    reveal_with_fuel(exact_from, 52);
    assert(exact_match(key, spec_table()) == Some(Category::RacingGame));
}

proof fn lemma_osx_rt_roleplayinggames()
    ensures
        resolve_spec(osx_category_type(Category::RolePlayingGame)) == Ok::<Category, Option<Category>>(Category::RolePlayingGame),
{
    lemma_key_lengths();
    lemma_key_chars();
    reveal_strlit("public.app-category.role-playing-games");
    reveal_strlit("public.app-category.");
    reveal_strlit("roleplayinggames");
    let v = "public.app-category.role-playing-games"@;
    let key = "roleplayinggames"@;
    assert(v.len() == 38);
    assert(lower_seq(v) =~= v);
    assert(v.take(20) =~= osx_prefix());
    assert(strip_prefix_spec(lower_seq(v)) =~= v.skip(20));
    reveal_with_fuel(strip_from, 21);
    assert(canon_spec(v) =~= key);
    reveal_with_fuel(exact_from, 56);
    assert(exact_match(key, spec_table()) == Some(Category::RolePlayingGame));
}

proof fn lemma_osx_rt_simulationgames()
    ensures
        resolve_spec(osx_category_type(Category::SimulationGame)) == Ok::<Category, Option<Category>>(Category::SimulationGame),
{
    lemma_key_lengths();
    lemma_key_chars();
    reveal_strlit("public.app-category.simulation-games");
    reveal_strlit("public.app-category.");
    reveal_strlit("simulationgames");
    let v = "public.app-category.simulation-games"@;
    let key = "simulationgames"@;
    assert(v.len() == 36);
    assert(lower_seq(v) =~= v);
    assert(v.take(20) =~= osx_prefix());
    assert(strip_prefix_spec(lower_seq(v)) =~= v.skip(20));
    reveal_with_fuel(strip_from, 19);
    assert(canon_spec(v) =~= key);
    reveal_with_fuel(exact_from, 59);
    assert(exact_match(key, spec_table()) == Some(Category::SimulationGame));
}

proof fn lemma_osx_rt_sportsgames()
    ensures
        resolve_spec(osx_category_type(Category::SportsGame)) == Ok::<Category, Option<Category>>(Category::SportsGame),
{
    lemma_key_lengths();
    lemma_key_chars();
    reveal_strlit("public.app-category.sports-games");
    reveal_strlit("public.app-category.");
    reveal_strlit("sportsgames");
    let v = "public.app-category.sports-games"@;
    let key = "sportsgames"@;
    assert(v.len() == 32);
    assert(lower_seq(v) =~= v);
    assert(v.take(20) =~= osx_prefix());
    assert(strip_prefix_spec(lower_seq(v)) =~= v.skip(20));
    reveal_with_fuel(strip_from, 15);
    assert(canon_spec(v) =~= key);
    reveal_with_fuel(exact_from, 64);
    assert(exact_match(key, spec_table()) == Some(Category::SportsGame));
}

proof fn lemma_osx_rt_strategygames()
    ensures
        resolve_spec(osx_category_type(Category::StrategyGame)) == Ok::<Category, Option<Category>>(Category::StrategyGame),
{
    lemma_key_lengths();
    lemma_key_chars();
    reveal_strlit("public.app-category.strategy-games");
    reveal_strlit("public.app-category.");
    reveal_strlit("strategygames");
    let v = "public.app-category.strategy-games"@;
    let key = "strategygames"@;
    assert(v.len() == 34);
    assert(lower_seq(v) =~= v);
    assert(v.take(20) =~= osx_prefix());
    assert(strip_prefix_spec(lower_seq(v)) =~= v.skip(20));
    reveal_with_fuel(strip_from, 17);
    assert(canon_spec(v) =~= key);
    reveal_with_fuel(exact_from, 66);
    assert(exact_match(key, spec_table()) == Some(Category::StrategyGame));
}

proof fn lemma_osx_rt_triviagames()
    ensures
        resolve_spec(osx_category_type(Category::TriviaGame)) == Ok::<Category, Option<Category>>(Category::TriviaGame),
{
    lemma_key_lengths();
    lemma_key_chars();
    reveal_strlit("public.app-category.trivia-games");
    reveal_strlit("public.app-category.");
    reveal_strlit("triviagames");
    let v = "public.app-category.trivia-games"@;
    let key = "triviagames"@;
    assert(v.len() == 32);
    assert(lower_seq(v) =~= v);
    assert(v.take(20) =~= osx_prefix());
    assert(strip_prefix_spec(lower_seq(v)) =~= v.skip(20));
    reveal_with_fuel(strip_from, 15);
    assert(canon_spec(v) =~= key);
    reveal_with_fuel(exact_from, 69);
    assert(exact_match(key, spec_table()) == Some(Category::TriviaGame));
}

proof fn lemma_osx_rt_wordgames()
    ensures
        resolve_spec(osx_category_type(Category::WordGame)) == Ok::<Category, Option<Category>>(Category::WordGame),
{
    lemma_key_lengths();
    lemma_key_chars();
    reveal_strlit("public.app-category.word-games");
    reveal_strlit("public.app-category.");
    reveal_strlit("wordgames");
    let v = "public.app-category.word-games"@;
    let key = "wordgames"@;
    assert(v.len() == 30);
    assert(lower_seq(v) =~= v);
    assert(v.take(20) =~= osx_prefix());
    assert(strip_prefix_spec(lower_seq(v)) =~= v.skip(20));
    reveal_with_fuel(strip_from, 13);
    assert(canon_spec(v) =~= key);
    reveal_with_fuel(exact_from, 75);
    assert(exact_match(key, spec_table()) == Some(Category::WordGame));
}

proof fn lemma_osx_rt_graphicsdesign()
    ensures
        resolve_spec(osx_category_type(Category::GraphicsAndDesign)) == Ok::<Category, Option<Category>>(Category::GraphicsAndDesign),
{
    lemma_key_lengths();
    lemma_key_chars();
    reveal_strlit("public.app-category.graphics-design");
    reveal_strlit("public.app-category.");
    reveal_strlit("graphicsdesign");
    let v = "public.app-category.graphics-design"@;
    let key = "graphicsdesign"@;
    assert(v.len() == 35);
    assert(lower_seq(v) =~= v);
    assert(v.take(20) =~= osx_prefix());
    assert(strip_prefix_spec(lower_seq(v)) =~= v.skip(20));
    reveal_with_fuel(strip_from, 18);
    assert(canon_spec(v) =~= key);
    reveal_with_fuel(exact_from, 34);
    assert(exact_match(key, spec_table()) == Some(Category::GraphicsAndDesign));
}

proof fn lemma_osx_rt_healthcarefitness()
    ensures
        resolve_spec(osx_category_type(Category::HealthcareAndFitness)) == Ok::<Category, Option<Category>>(Category::HealthcareAndFitness),
{
    lemma_key_lengths();
    lemma_key_chars();
    reveal_strlit("public.app-category.healthcare-fitness");
    reveal_strlit("public.app-category.");
    reveal_strlit("healthcarefitness");
    let v = "public.app-category.healthcare-fitness"@;
    let key = "healthcarefitness"@;
    assert(v.len() == 38);
    assert(lower_seq(v) =~= v);
    assert(v.take(20) =~= osx_prefix());
    assert(strip_prefix_spec(lower_seq(v)) =~= v.skip(20));
    reveal_with_fuel(strip_from, 21);
    assert(canon_spec(v) =~= key);
    reveal_with_fuel(exact_from, 36);
    assert(exact_match(key, spec_table()) == Some(Category::HealthcareAndFitness));
}

proof fn lemma_osx_rt_lifestyle()
    ensures
        resolve_spec(osx_category_type(Category::Lifestyle)) == Ok::<Category, Option<Category>>(Category::Lifestyle),
{
    lemma_key_lengths();
    lemma_key_chars();
    reveal_strlit("public.app-category.lifestyle");
    reveal_strlit("public.app-category.");
    reveal_strlit("lifestyle");
    let v = "public.app-category.lifestyle"@;
    let key = "lifestyle"@;
    assert(v.len() == 29);
    assert(lower_seq(v) =~= v);
    assert(v.take(20) =~= osx_prefix());
    assert(strip_prefix_spec(lower_seq(v)) =~= v.skip(20));
    reveal_with_fuel(strip_from, 12);
    assert(canon_spec(v) =~= key);
    reveal_with_fuel(exact_from, 39);
    assert(exact_match(key, spec_table()) == Some(Category::Lifestyle));
}

proof fn lemma_osx_rt_medical()
    ensures
        resolve_spec(osx_category_type(Category::Medical)) == Ok::<Category, Option<Category>>(Category::Medical),
{
    lemma_key_lengths();
    lemma_key_chars();
    reveal_strlit("public.app-category.medical");
    reveal_strlit("public.app-category.");
    reveal_strlit("medical");
    let v = "public.app-category.medical"@;
    let key = "medical"@;
    assert(v.len() == 27);
    assert(lower_seq(v) =~= v);
    assert(v.take(20) =~= osx_prefix());
    assert(strip_prefix_spec(lower_seq(v)) =~= v.skip(20));
    reveal_with_fuel(strip_from, 10);
    assert(canon_spec(v) =~= key);
    reveal_with_fuel(exact_from, 41);
    assert(exact_match(key, spec_table()) == Some(Category::Medical));
}

proof fn lemma_osx_rt_music()
    ensures
        resolve_spec(osx_category_type(Category::Music)) == Ok::<Category, Option<Category>>(Category::Music),
{
    lemma_key_lengths();
    lemma_key_chars();
    reveal_strlit("public.app-category.music");
    reveal_strlit("public.app-category.");
    reveal_strlit("music");
    let v = "public.app-category.music"@;
    let key = "music"@;
    assert(v.len() == 25);
    assert(lower_seq(v) =~= v);
    assert(v.take(20) =~= osx_prefix());
    assert(strip_prefix_spec(lower_seq(v)) =~= v.skip(20));
    reveal_with_fuel(strip_from, 8);
    assert(canon_spec(v) =~= key);
    reveal_with_fuel(exact_from, 43);
    assert(exact_match(key, spec_table()) == Some(Category::Music));
}

proof fn lemma_osx_rt_news()
    ensures
        resolve_spec(osx_category_type(Category::News)) == Ok::<Category, Option<Category>>(Category::News),
{
    lemma_key_lengths();
    lemma_key_chars();
    reveal_strlit("public.app-category.news");
    reveal_strlit("public.app-category.");
    reveal_strlit("news");
    let v = "public.app-category.news"@;
    let key = "news"@;
    assert(v.len() == 24);
    assert(lower_seq(v) =~= v);
    assert(v.take(20) =~= osx_prefix());
    assert(strip_prefix_spec(lower_seq(v)) =~= v.skip(20));
    reveal_with_fuel(strip_from, 7);
    assert(canon_spec(v) =~= key);
    reveal_with_fuel(exact_from, 46);
    assert(exact_match(key, spec_table()) == Some(Category::News));
}

proof fn lemma_osx_rt_photography()
    ensures
        resolve_spec(osx_category_type(Category::Photography)) == Ok::<Category, Option<Category>>(Category::Photography),
{
    lemma_key_lengths();
    lemma_key_chars();
    reveal_strlit("public.app-category.photography");
    reveal_strlit("public.app-category.");
    reveal_strlit("photography");
    let v = "public.app-category.photography"@;
    let key = "photography"@;
    assert(v.len() == 31);
    assert(lower_seq(v) =~= v);
    assert(v.take(20) =~= osx_prefix());
    assert(strip_prefix_spec(lower_seq(v)) =~= v.skip(20));
    reveal_with_fuel(strip_from, 14);
    assert(canon_spec(v) =~= key);
    reveal_with_fuel(exact_from, 47);
    assert(exact_match(key, spec_table()) == Some(Category::Photography));
}

proof fn lemma_osx_rt_productivity()
    ensures
        resolve_spec(osx_category_type(Category::Productivity)) == Ok::<Category, Option<Category>>(Category::Productivity),
{
    lemma_key_lengths();
    lemma_key_chars();
    reveal_strlit("public.app-category.productivity");
    reveal_strlit("public.app-category.");
    reveal_strlit("productivity");
    let v = "public.app-category.productivity"@;
    let key = "productivity"@;
    assert(v.len() == 32);
    assert(lower_seq(v) =~= v);
    assert(v.take(20) =~= osx_prefix());
    assert(strip_prefix_spec(lower_seq(v)) =~= v.skip(20));
    reveal_with_fuel(strip_from, 15);
    assert(canon_spec(v) =~= key);
    reveal_with_fuel(exact_from, 48);
    assert(exact_match(key, spec_table()) == Some(Category::Productivity));
}

proof fn lemma_osx_rt_reference()
    ensures
        resolve_spec(osx_category_type(Category::Reference)) == Ok::<Category, Option<Category>>(Category::Reference),
{
    lemma_key_lengths();
    lemma_key_chars();
    reveal_strlit("public.app-category.reference");
    reveal_strlit("public.app-category.");
    reveal_strlit("reference");
    let v = "public.app-category.reference"@;
    let key = "reference"@;
    assert(v.len() == 29);
    assert(lower_seq(v) =~= v);
    assert(v.take(20) =~= osx_prefix());
    assert(strip_prefix_spec(lower_seq(v)) =~= v.skip(20));
    reveal_with_fuel(strip_from, 12);
    assert(canon_spec(v) =~= key);
    reveal_with_fuel(exact_from, 53);
    assert(exact_match(key, spec_table()) == Some(Category::Reference));
}

proof fn lemma_osx_rt_socialnetworking()
    ensures
        resolve_spec(osx_category_type(Category::SocialNetworking)) == Ok::<Category, Option<Category>>(Category::SocialNetworking),
{
    lemma_key_lengths();
    lemma_key_chars();
    reveal_strlit("public.app-category.social-networking");
    reveal_strlit("public.app-category.");
    reveal_strlit("socialnetworking");
    let v = "public.app-category.social-networking"@;
    let key = "socialnetworking"@;
    assert(v.len() == 37);
    assert(lower_seq(v) =~= v);
    assert(v.take(20) =~= osx_prefix());
    assert(strip_prefix_spec(lower_seq(v)) =~= v.skip(20));
    reveal_with_fuel(strip_from, 20);
    assert(canon_spec(v) =~= key);
    reveal_with_fuel(exact_from, 61);
    assert(exact_match(key, spec_table()) == Some(Category::SocialNetworking));
}

proof fn lemma_osx_rt_sports()
    ensures
        resolve_spec(osx_category_type(Category::Sports)) == Ok::<Category, Option<Category>>(Category::Sports),
{
    lemma_key_lengths();
    lemma_key_chars();
    reveal_strlit("public.app-category.sports");
    reveal_strlit("public.app-category.");
    reveal_strlit("sports");
    let v = "public.app-category.sports"@;
    let key = "sports"@;
    assert(v.len() == 26);
    assert(lower_seq(v) =~= v);
    assert(v.take(20) =~= osx_prefix());
    assert(strip_prefix_spec(lower_seq(v)) =~= v.skip(20));
    reveal_with_fuel(strip_from, 9);
    assert(canon_spec(v) =~= key);
    reveal_with_fuel(exact_from, 62);
    assert(exact_match(key, spec_table()) == Some(Category::Sports));
}

proof fn lemma_osx_rt_travel()
    ensures
        resolve_spec(osx_category_type(Category::Travel)) == Ok::<Category, Option<Category>>(Category::Travel),
{
    lemma_key_lengths();
    lemma_key_chars();
    reveal_strlit("public.app-category.travel");
    reveal_strlit("public.app-category.");
    reveal_strlit("travel");
    let v = "public.app-category.travel"@;
    let key = "travel"@;
    assert(v.len() == 26);
    assert(lower_seq(v) =~= v);
    assert(v.take(20) =~= osx_prefix());
    assert(strip_prefix_spec(lower_seq(v)) =~= v.skip(20));
    reveal_with_fuel(strip_from, 9);
    assert(canon_spec(v) =~= key);
    reveal_with_fuel(exact_from, 67);
    assert(exact_match(key, spec_table()) == Some(Category::Travel));
}

proof fn lemma_osx_rt_utilities()
    ensures
        resolve_spec(osx_category_type(Category::Utility)) == Ok::<Category, Option<Category>>(Category::Utility),
{
    lemma_key_lengths();
    lemma_key_chars();
    reveal_strlit("public.app-category.utilities");
    reveal_strlit("public.app-category.");
    reveal_strlit("utilities");
    let v = "public.app-category.utilities"@;
    let key = "utilities"@;
    assert(v.len() == 29);
    assert(lower_seq(v) =~= v);
    assert(v.take(20) =~= osx_prefix());
    assert(strip_prefix_spec(lower_seq(v)) =~= v.skip(20));
    reveal_with_fuel(strip_from, 12);
    assert(canon_spec(v) =~= key);
    reveal_with_fuel(exact_from, 70);
    assert(exact_match(key, spec_table()) == Some(Category::Utility));
}

proof fn lemma_osx_rt_video()
    ensures
        resolve_spec(osx_category_type(Category::Video)) == Ok::<Category, Option<Category>>(Category::Video),
{
    lemma_key_lengths();
    lemma_key_chars();
    reveal_strlit("public.app-category.video");
    reveal_strlit("public.app-category.");
    reveal_strlit("video");
    let v = "public.app-category.video"@;
    let key = "video"@;
    assert(v.len() == 25);
    assert(lower_seq(v) =~= v);
    assert(v.take(20) =~= osx_prefix());
    assert(strip_prefix_spec(lower_seq(v)) =~= v.skip(20));
    reveal_with_fuel(strip_from, 8);
    assert(canon_spec(v) =~= key);
    reveal_with_fuel(exact_from, 72);
    assert(exact_match(key, spec_table()) == Some(Category::Video));
}

proof fn lemma_osx_rt_weather()
    ensures
        resolve_spec(osx_category_type(Category::Weather)) == Ok::<Category, Option<Category>>(Category::Weather),
{
    lemma_key_lengths();
    lemma_key_chars();
    reveal_strlit("public.app-category.weather");
    reveal_strlit("public.app-category.");
    reveal_strlit("weather");
    let v = "public.app-category.weather"@;
    let key = "weather"@;
    assert(v.len() == 27);
    assert(lower_seq(v) =~= v);
    assert(v.take(20) =~= osx_prefix());
    assert(strip_prefix_spec(lower_seq(v)) =~= v.skip(20));
    reveal_with_fuel(strip_from, 10);
    assert(canon_spec(v) =~= key);
    reveal_with_fuel(exact_from, 73);
    assert(exact_match(key, spec_table()) == Some(Category::Weather));
}

/// Resolving a category's platform taxonomy string yields that same
/// category: the taxonomy projection round-trips through the resolver.
pub proof fn lemma_osx_round_trip(c: Category)
    ensures
        resolve_spec(osx_category_type(c)) == Ok::<Category, Option<Category>>(c),
{
    match c {
        Category::Business => lemma_osx_rt_business(),
        Category::DeveloperTool => lemma_osx_rt_developertools(),
        Category::Education => lemma_osx_rt_education(),
        Category::Entertainment => lemma_osx_rt_entertainment(),
        Category::Finance => lemma_osx_rt_finance(),
        Category::Game => lemma_osx_rt_games(),
        Category::ActionGame => lemma_osx_rt_actiongames(),
        Category::AdventureGame => lemma_osx_rt_adventuregames(),
        Category::ArcadeGame => lemma_osx_rt_arcadegames(),
        Category::BoardGame => lemma_osx_rt_boardgames(),
        Category::CardGame => lemma_osx_rt_cardgames(),
        Category::CasinoGame => lemma_osx_rt_casinogames(),
        Category::DiceGame => lemma_osx_rt_dicegames(),
        Category::EducationalGame => lemma_osx_rt_educationalgames(),
        Category::FamilyGame => lemma_osx_rt_familygames(),
        Category::KidsGame => lemma_osx_rt_kidsgames(),
        Category::MusicGame => lemma_osx_rt_musicgames(),
        Category::PuzzleGame => lemma_osx_rt_puzzlegames(),
        Category::RacingGame => lemma_osx_rt_racinggames(),
        Category::RolePlayingGame => lemma_osx_rt_roleplayinggames(),
        Category::SimulationGame => lemma_osx_rt_simulationgames(),
        Category::SportsGame => lemma_osx_rt_sportsgames(),
        Category::StrategyGame => lemma_osx_rt_strategygames(),
        Category::TriviaGame => lemma_osx_rt_triviagames(),
        Category::WordGame => lemma_osx_rt_wordgames(),
        Category::GraphicsAndDesign => lemma_osx_rt_graphicsdesign(),
        Category::HealthcareAndFitness => lemma_osx_rt_healthcarefitness(),
        Category::Lifestyle => lemma_osx_rt_lifestyle(),
        Category::Medical => lemma_osx_rt_medical(),
        Category::Music => lemma_osx_rt_music(),
        Category::News => lemma_osx_rt_news(),
        Category::Photography => lemma_osx_rt_photography(),
        Category::Productivity => lemma_osx_rt_productivity(),
        Category::Reference => lemma_osx_rt_reference(),
        Category::SocialNetworking => lemma_osx_rt_socialnetworking(),
        Category::Sports => lemma_osx_rt_sports(),
        Category::Travel => lemma_osx_rt_travel(),
        Category::Utility => lemma_osx_rt_utilities(),
        Category::Video => lemma_osx_rt_video(),
        Category::Weather => lemma_osx_rt_weather(),
    }
}

} // verus!