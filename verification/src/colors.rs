use vstd::prelude::*;

verus! {

/// A named terminal palette: the scheme's name and its five colors, from the
/// "no activity" base color to the most saturated shade.
pub struct ColorScheme {
    pub name: String,
    pub colors: Vec<String>,
}

/// The mathematical value of a `ColorScheme`.
pub ghost struct SchemeModel {
    pub name: Seq<char>,
    pub colors: Seq<Seq<char>>,
}

impl View for ColorScheme {
    type V = SchemeModel;

    open spec fn view(&self) -> SchemeModel {
        SchemeModel { name: self.name@, colors: self.colors@.map_values(|c: String| c@) }
    }
}

/// Every color scheme the renderer knows, by name, each with its five colors.
pub open spec fn spec_schemes() -> Seq<SchemeModel> {
    seq![
        SchemeModel { name: "github"@, colors: seq!["#eeeeee"@, "#2ea043"@, "#3fb950"@, "#50d05d"@, "#a1f1a8"@] },
        SchemeModel { name: "halloween"@, colors: seq!["#eeeeee"@, "#04001b"@, "#ff9711"@, "#ffc722"@, "#fdf156"@] },
        SchemeModel { name: "amber"@, colors: seq!["#eeeeee"@, "#ff6f00"@, "#ffb300"@, "#ffd54f"@, "#ffecb3"@] },
        SchemeModel { name: "blue"@, colors: seq!["#eeeeee"@, "#0d47a1"@, "#1e88e5"@, "#64b5f6"@, "#bbdefb"@] },
        SchemeModel { name: "bluegrey"@, colors: seq!["#eeeeee"@, "#263238"@, "#546e7a"@, "#90a4ae"@, "#cfd8dc"@] },
        SchemeModel { name: "brown"@, colors: seq!["#eeeeee"@, "#3e2723"@, "#6d4c41"@, "#a1887f"@, "#d7ccc8"@] },
        SchemeModel { name: "cyan"@, colors: seq!["#eeeeee"@, "#006064"@, "#00acc1"@, "#4dd0e1"@, "#b2ebf2"@] },
        SchemeModel { name: "deeporange"@, colors: seq!["#eeeeee"@, "#bf360c"@, "#f4511e"@, "#ff8a65"@, "#ffccbc"@] },
        SchemeModel { name: "deeppurple"@, colors: seq!["#eeeeee"@, "#311b92"@, "#5e35b1"@, "#9575cd"@, "#d1c4e9"@] },
        SchemeModel { name: "green"@, colors: seq!["#eeeeee"@, "#1b5e20"@, "#43a047"@, "#81c784"@, "#c8e6c9"@] },
        SchemeModel { name: "grey"@, colors: seq!["#eeeeee"@, "#212121"@, "#616161"@, "#9e9e9e"@, "#e0e0e0"@] },
        SchemeModel { name: "indigo"@, colors: seq!["#eeeeee"@, "#1a237e"@, "#3949ab"@, "#7986cb"@, "#c5cae9"@] },
        SchemeModel { name: "lightblue"@, colors: seq!["#eeeeee"@, "#01579b"@, "#039be5"@, "#4fc3f7"@, "#b3e5fc"@] },
        SchemeModel { name: "lightgreen"@, colors: seq!["#eeeeee"@, "#33691e"@, "#7cb342"@, "#aed581"@, "#dcedc8"@] },
        SchemeModel { name: "lime"@, colors: seq!["#eeeeee"@, "#827717"@, "#c0ca33"@, "#dce775"@, "#f0f4c3"@] },
        SchemeModel { name: "orange"@, colors: seq!["#eeeeee"@, "#e65100"@, "#fb8c00"@, "#ffb74d"@, "#ffe0b2"@] },
        SchemeModel { name: "pink"@, colors: seq!["#eeeeee"@, "#880e4f"@, "#e91e63"@, "#f06292"@, "#f8bbd0"@] },
        SchemeModel { name: "purple"@, colors: seq!["#eeeeee"@, "#4a148c"@, "#8e24aa"@, "#ba68c8"@, "#e1bee7"@] },
        SchemeModel { name: "red"@, colors: seq!["#eeeeee"@, "#b71c1c"@, "#e53935"@, "#e57373"@, "#ffcdd2"@] },
        SchemeModel { name: "teal"@, colors: seq!["#eeeeee"@, "#004d40"@, "#00897b"@, "#4db6ac"@, "#b2dfdb"@] },
        SchemeModel { name: "yellow"@, colors: seq!["#eeeeee"@, "#f57f17"@, "#ffd835"@, "#fff176"@, "#fff9c4"@] },
        SchemeModel { name: "moon"@, colors: seq!["#eeeeee"@, "#4f2266"@, "#48009a"@, "#00a1f3"@, "#6bcdff"@] },
        SchemeModel { name: "psychedelic"@, colors: seq!["#eeeeee"@, "#ff00ab"@, "#fa3fbc"@, "#fb6dcc"@, "#faafe1"@] },
    ]
}

/// Build one scheme from its name and five colors.
fn scheme(name: &str, c0: &str, c1: &str, c2: &str, c3: &str, c4: &str) -> (s: ColorScheme)
    ensures
        s@ == (SchemeModel { name: name@, colors: seq![c0@, c1@, c2@, c3@, c4@] }),
{
    let mut colors: Vec<String> = Vec::new();
    colors.push(c0.to_owned());
    colors.push(c1.to_owned());
    colors.push(c2.to_owned());
    colors.push(c3.to_owned());
    colors.push(c4.to_owned());
    let s = ColorScheme { name: name.to_owned(), colors };
    proof {
        assert(s@.colors =~= seq![c0@, c1@, c2@, c3@, c4@]);
    }
    s
}

/// Every scheme the renderer knows, in the order of `spec_schemes`.
pub fn schemes() -> (v: Vec<ColorScheme>)
    ensures
        v@.len() == spec_schemes().len(),
        forall|i: int| 0 <= i < v@.len() ==> (#[trigger] v@[i])@ == spec_schemes()[i],
{
    let mut v: Vec<ColorScheme> = Vec::new();
    v.push(scheme("github", "#eeeeee", "#2ea043", "#3fb950", "#50d05d", "#a1f1a8"));
    v.push(scheme("halloween", "#eeeeee", "#04001b", "#ff9711", "#ffc722", "#fdf156"));
    v.push(scheme("amber", "#eeeeee", "#ff6f00", "#ffb300", "#ffd54f", "#ffecb3"));
    v.push(scheme("blue", "#eeeeee", "#0d47a1", "#1e88e5", "#64b5f6", "#bbdefb"));
    v.push(scheme("bluegrey", "#eeeeee", "#263238", "#546e7a", "#90a4ae", "#cfd8dc"));
    v.push(scheme("brown", "#eeeeee", "#3e2723", "#6d4c41", "#a1887f", "#d7ccc8"));
    v.push(scheme("cyan", "#eeeeee", "#006064", "#00acc1", "#4dd0e1", "#b2ebf2"));
    v.push(scheme("deeporange", "#eeeeee", "#bf360c", "#f4511e", "#ff8a65", "#ffccbc"));
    v.push(scheme("deeppurple", "#eeeeee", "#311b92", "#5e35b1", "#9575cd", "#d1c4e9"));
    v.push(scheme("green", "#eeeeee", "#1b5e20", "#43a047", "#81c784", "#c8e6c9"));
    v.push(scheme("grey", "#eeeeee", "#212121", "#616161", "#9e9e9e", "#e0e0e0"));
    v.push(scheme("indigo", "#eeeeee", "#1a237e", "#3949ab", "#7986cb", "#c5cae9"));
    v.push(scheme("lightblue", "#eeeeee", "#01579b", "#039be5", "#4fc3f7", "#b3e5fc"));
    v.push(scheme("lightgreen", "#eeeeee", "#33691e", "#7cb342", "#aed581", "#dcedc8"));
    v.push(scheme("lime", "#eeeeee", "#827717", "#c0ca33", "#dce775", "#f0f4c3"));
    v.push(scheme("orange", "#eeeeee", "#e65100", "#fb8c00", "#ffb74d", "#ffe0b2"));
    v.push(scheme("pink", "#eeeeee", "#880e4f", "#e91e63", "#f06292", "#f8bbd0"));
    v.push(scheme("purple", "#eeeeee", "#4a148c", "#8e24aa", "#ba68c8", "#e1bee7"));
    v.push(scheme("red", "#eeeeee", "#b71c1c", "#e53935", "#e57373", "#ffcdd2"));
    v.push(scheme("teal", "#eeeeee", "#004d40", "#00897b", "#4db6ac", "#b2dfdb"));
    v.push(scheme("yellow", "#eeeeee", "#f57f17", "#ffd835", "#fff176", "#fff9c4"));
    v.push(scheme("moon", "#eeeeee", "#4f2266", "#48009a", "#00a1f3", "#6bcdff"));
    v.push(scheme("psychedelic", "#eeeeee", "#ff00ab", "#fa3fbc", "#fb6dcc", "#faafe1"));
    proof {
        assert forall|i: int| 0 <= i < v@.len() implies (#[trigger] v@[i])@ == spec_schemes()[i] by {
        }
    }
    v
}

impl ColorScheme {
    /// The color at `index`, falling back to the base color for an index past
    /// the palette's end.
    pub fn get_color(&self, index: usize) -> (c: String)
        requires
            self@.colors.len() > 0,
        ensures
            c@ == if index < self@.colors.len() {
                self@.colors[index as int]
            } else {
                self@.colors[0]
            },
    {
        if index < self.colors.len() {
            self.colors[index].clone()
        } else {
            self.colors[0].clone()
        }
    }

    /// The scheme called `name`, or nothing when no scheme has that name.
    pub fn find_by_name(name: &str) -> (r: Option<ColorScheme>)
        ensures
            r matches Some(s) ==> s@.name == name@ && exists|i: int|
                0 <= i < spec_schemes().len() && s@ == #[trigger] spec_schemes()[i],
            r is None ==> forall|i: int|
                0 <= i < spec_schemes().len() ==> (#[trigger] spec_schemes()[i]).name != name@,
    {
        let mut all = schemes();
        let key = name.to_owned();
        let mut i: usize = 0;
        while i < all.len()
            invariant
                key@ == name@,
                all@.len() == spec_schemes().len(),
                forall|j: int| 0 <= j < all@.len() ==> (#[trigger] all@[j])@ == spec_schemes()[j],
                0 <= i <= all@.len(),
                forall|j: int| 0 <= j < i ==> (#[trigger] spec_schemes()[j]).name != name@,
            decreases all@.len() - i,
        {
            if all[i].name == key {
                let s = all.swap_remove(i);
                return Some(s);
            }
            i = i + 1;
        }
        None
    }

    /// The default scheme: the first one.
    pub fn default() -> (r: ColorScheme)
        ensures
            r@ == spec_schemes()[0],
    {
        scheme("github", "#eeeeee", "#2ea043", "#3fb950", "#50d05d", "#a1f1a8")
    }
}

} // verus!
