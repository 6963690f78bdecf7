use vstd::prelude::*;

use crate::MAX_TIME_SECS;

verus! {

/// Mathematical view of an exercise: its name and its instructional text.
pub ghost struct ExerciseView {
    pub name: Seq<char>,
    pub contents: Seq<char>,
}

/// Mathematical view of a skill: its name and its ordered exercises.
pub ghost struct SkillView {
    pub name: Seq<char>,
    pub exercises: Seq<ExerciseView>,
}

/// A single instructional unit within a skill: a name plus freeform
/// markdown text telling the user what to do. Immutable after creation.
#[derive(Debug)]
pub struct PracticeExercise {
    pub exercise_name: String,
    pub exercise_markdown_contents: String,
}

impl View for PracticeExercise {
    type V = ExerciseView;

    open spec fn view(&self) -> ExerciseView {
        ExerciseView { name: self.exercise_name@, contents: self.exercise_markdown_contents@ }
    }
}

impl Clone for PracticeExercise {
    fn clone(&self) -> (r: Self)
        ensures
            r@ == self@,
    {
        PracticeExercise {
            exercise_name: self.exercise_name.clone(),
            exercise_markdown_contents: self.exercise_markdown_contents.clone(),
        }
    }
}

impl PracticeExercise {
    /// Builds an exercise from its name and markdown contents.
    pub fn new(exercise_name: String, exercise_markdown_contents: String) -> (r: Self)
        ensures
            r@.name == exercise_name@,
            r@.contents == exercise_markdown_contents@,
    {
        PracticeExercise { exercise_name, exercise_markdown_contents }
    }
}

/// A named practice category holding an ordered, non-empty list of
/// exercises. Skills are identified by name.
#[derive(Debug)]
pub struct PracticeSkill {
    pub skill_name: String,
    pub exercises: Vec<PracticeExercise>,
}

impl View for PracticeSkill {
    type V = SkillView;

    open spec fn view(&self) -> SkillView {
        SkillView {
            name: self.skill_name@,
            exercises: Seq::new(self.exercises@.len(), |i: int| self.exercises@[i]@),
        }
    }
}

impl PracticeSkill {
    /// A skill is well formed when it has at least one exercise.
    pub open spec fn wf(self) -> bool {
        self@.exercises.len() >= 1
    }

    /// Builds a skill from its name and a non-empty exercise list.
    pub fn new(skill_name: String, exercises: Vec<PracticeExercise>) -> (r: Self)
        requires
            exercises@.len() >= 1,
        ensures
            r.wf(),
            r@.name == skill_name@,
            r@.exercises.len() == exercises@.len(),
            forall|i: int| 0 <= i < exercises@.len() ==> r@.exercises[i] == exercises@[i]@,
    {
        PracticeSkill { skill_name, exercises }
    }
}

impl Clone for PracticeSkill {
    fn clone(&self) -> (r: Self)
        ensures
            r@ == self@,
    {
        let mut cloned_exercises: Vec<PracticeExercise> = Vec::new();
        let mut i: usize = 0;
        while i < self.exercises.len()
            invariant
                i <= self.exercises@.len(),
                cloned_exercises@.len() == i,
                forall|k: int| 0 <= k < i ==> cloned_exercises@[k]@ == self.exercises@[k]@,
            decreases self.exercises@.len() - i,
        {
            cloned_exercises.push(self.exercises[i].clone());
            i = i + 1;
        }
        let r = PracticeSkill { skill_name: self.skill_name.clone(), exercises: cloned_exercises };
        proof {
            assert(r@.exercises =~= self@.exercises);
        }
        r
    }
}

/// The scheduler's configuration: how long each skill is practiced, how
/// many days a skill may go unpracticed, how many skills make up a daily
/// schedule, and the skill set itself.
#[derive(Debug)]
pub struct PlannerConfiguration {
    /// The duration each skill is to be practiced, in seconds.
    pub skill_practice_time: i64,
    /// The max number of days allowed to elapse without practicing a skill.
    pub skill_repeat_days: usize,
    /// The number of skills to practice per day.
    pub skills_per_day: usize,
    /// The skill set, unique by name.
    pub skills: Vec<PracticeSkill>,
}

impl PlannerConfiguration {
    /// The skill names, in configuration order.
    pub open spec fn skill_names(self) -> Seq<Seq<char>> {
        Seq::new(self.skills@.len(), |i: int| self.skills@[i]@.name)
    }

    /// A configuration is well formed when the repeat threshold is at
    /// least one day, the practice time is a representable duration,
    /// every skill has at least one exercise, and names are unique.
    pub open spec fn wf(self) -> bool {
        &&& 1 <= self.skill_repeat_days
        &&& 0 <= self.skill_practice_time <= MAX_TIME_SECS
        &&& forall|i: int| 0 <= i < self.skills@.len() ==> (#[trigger] self.skills@[i]).wf()
        &&& forall|i: int, j: int|
            0 <= i < j < self.skills@.len() ==> self.skills@[i]@.name != self.skills@[j]@.name
    }
}

impl Clone for PlannerConfiguration {
    fn clone(&self) -> (r: Self)
        ensures
            r.skill_practice_time == self.skill_practice_time,
            r.skill_repeat_days == self.skill_repeat_days,
            r.skills_per_day == self.skills_per_day,
            r.skills@.len() == self.skills@.len(),
            forall|i: int| 0 <= i < self.skills@.len() ==> r.skills@[i]@ == self.skills@[i]@,
    {
        PlannerConfiguration {
            skill_practice_time: self.skill_practice_time,
            skill_repeat_days: self.skill_repeat_days,
            skills_per_day: self.skills_per_day,
            skills: clone_skills(&self.skills),
        }
    }
}

/// Clones a skill list, preserving every skill's view.
pub fn clone_skills(skills: &Vec<PracticeSkill>) -> (r: Vec<PracticeSkill>)
    ensures
        r@.len() == skills@.len(),
        forall|i: int| 0 <= i < skills@.len() ==> r@[i]@ == skills@[i]@,
{
    let mut out: Vec<PracticeSkill> = Vec::new();
    let mut i: usize = 0;
    while i < skills.len()
        invariant
            i <= skills@.len(),
            out@.len() == i,
            forall|k: int| 0 <= k < i ==> out@[k]@ == skills@[k]@,
        decreases skills@.len() - i,
    {
        out.push(skills[i].clone());
        i = i + 1;
    }
    out
}

} // verus!
