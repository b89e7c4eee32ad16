//! Periodic goodwill: once per cadence, after skipping its very first turn,
//! emits one quote drawn at random from a fixed table.

use crate::bot::Message;
use crate::bot::Module;
use crate::bot::ModuleCapabilities;
use crate::bot::ModuleInfo;
use crate::bot::ModuleParam;
use crate::bot::TriggerOutcome;
use crate::rng::rand_range;
use vstd::prelude::*;

verus! {

pub struct Hello {
    /// The first scheduled turn emits nothing, so that a restart does not
    /// greet immediately.
    pub has_skipped_first_time: bool,
}

impl Hello {
    pub fn new() -> (h: Hello)
        ensures
            !h.has_skipped_first_time,
    {
        Hello { has_skipped_first_time: false }
    }
}

/// The quote table: (author, quote) pairs.
pub fn all_quotes() -> (q: Vec<(&'static str, &'static str)>)
    ensures
        q@.len() > 0,
{
    let mut q: Vec<(&'static str, &'static str)> = Vec::new();
    q.push(("Linus Torvalds", "I'm doing a (free) operating system (just a hobby, won't be big and professional like gnu) for 386(486) AT clones."));
    q.push(("Linus Torvalds", "Making Linux GPL'd was definitely the best thing I ever did."));
    q.push(("Linus Torvalds", "Talk is cheap. Show me the code."));
    q.push(("Linus Torvalds", "For example, the GPLv2 in no way limits your use of the software. If you're a mad scientist, you can use GPLv2'd software for your evil plans to take over the world (\"Sharks with lasers on their heads!!\"), and the GPLv2 just says that you have to give source code back. And that's OK by me. I like sharks with lasers. I just want the mad scientists of the world to pay me back in kind. I made source code available to them, they have to make their changes to it available to me. After that, they can fry me with their shark-mounted lasers all they want."));
    q.push(("Linus Torvalds", "I am a lazy person, which is why I like open source, for other people to do work for me."));
    q.push(("John D. Carmack", "Sharing the code just seems like The Right Thing to Do, it costs us rather little, but it benefits a lot of people in sometimes very significant ways."));
    q.push(("Richard M. Stallman", "GNU, which stands for Gnu's Not Unix, is the name for the complete Unix-compatible software system which I am writing so that I can give it away free to everyone who can use it."));
    q.push(("Richard M. Stallman", "To avoid horrible confusion, please pronounce the G in the word GNU when it is the name of this project."));
    q.push(("Richard M. Stallman", "I consider that the golden rule requires that if I like a program I must share it with other people who like it."));
    q.push(("Richard M. Stallman", "GNU is not in the public domain. Everyone will be permitted to modify and redistribute GNU, but no distributor will be allowed to restrict its further redistribution."));
    q.push(("Richard M. Stallman", "Once GNU is written, everyone will be able to obtain good system software free, just like air."));
    q.push(("Richard M. Stallman", "A hacker is someone who enjoys playful cleverness — not necessarily with computers."));
    q.push(("Richard M. Stallman", "The use of “hacker” to mean “security breaker” is a confusion on the part of the mass media. We hackers refuse to recognize that meaning, and continue using the word to mean someone who loves to program, someone who enjoys playful cleverness, or the combination of the two."));
    q.push(("Richard M. Stallman", "If we are content with knowledge as a commodity, accessible only through a computerized bureaucracy, we can simply let companies provide it. But if we want to keep human knowledge open and freely available to humanity, we have to do the work to make it available that way. We have to write a free encyclopedia."));
    q.push(("Richard M. Stallman", "Very ironic things have happened, but nothing to match this — giving the Linus Torvalds Award to the Free Software Foundation is sort of like giving the Han Solo Award to the Rebel Fleet."));
    q.push(("Richard M. Stallman", "Every decision a person makes stems from the person's values and goals. People can have many different goals and values; fame, profit, love, survival, fun, and freedom, are just some of the goals that a good person might have. When the goal is to help others as well as oneself, we call that idealism. My work on free software is motivated by an idealistic goal: spreading freedom and cooperation. I want to encourage free software to spread, replacing proprietary software that forbids cooperation, and thus make our society better."));
    q.push(("Richard M. Stallman", "While free software by any other name would give you the same freedom, it makes a big difference which name we use: different words convey different ideas."));
    q.push(("Richard M. Stallman", "We are not against the Open Source movement, but we don't want to be lumped in with them. We acknowledge that they have contributed to our community, but we created this community, and we want people to know this."));
    q.push(("Richard M. Stallman", "The term \"free software\" has an ambiguity problem: an unintended meaning, \"Software you can get for zero price,\" fits the term just as well as the intended meaning, \"software which gives the user certain freedoms.\" We address this problem by publishing a more precise definition of free software, but this is not a perfect solution; it cannot completely eliminate the problem. An unambiguously correct term would be better, if it didn't have other problems."));
    q.push(("Richard M. Stallman", "The official definition of \"open source software,\" as published by the Open Source Initiative, is very close to our definition of free software; however, it is a little looser in some respects, and they have accepted a few licenses that we consider unacceptably restrictive of the users."));
    q.push(("Richard M. Stallman", "Value your freedom or you will lose it, teaches history. \"Don't bother us with politics,\" respond those who don't want to learn."));
    q.push(("Richard M. Stallman", "Geeks like to think that they can ignore politics, you can leave politics alone, but politics won't leave you alone."));
    q.push(("Richard M. Stallman", "Thanks to Mr. Gates, we now know that an open Internet with protocols anyone can implement is communism; it was set up by that famous communist agent, the US Department of Defense."));
    q.push(("Richard M. Stallman", "People said I should accept the world. Bullshit! I don't accept the world."));
    q.push(("Richard M. Stallman", "You can use any editor you want, but remember that vi vi vi is the text editor of the beast."));
    q.push(("Richard M. Stallman", "For personal reasons, I do not browse the web from my computer."));
    q.push(("Richard M. Stallman", "I have to explain that I'm not an anarchist – I have a pro-state gland."));
    q.push(("Richard M. Stallman", "Isn't it ironic that the proprietary software developers call us communists? We are the ones who have provided for a free market, where they allow only monopoly."));
    q.push(("Richard M. Stallman", "The GNU GPL was not designed to be \"open source\". I wrote it for the free software movement, and its purpose is to ensure every user of every version of the program gets the essential freedoms. See http://www.gnu.org/philosophy/open-source-misses-the-point.html for more explanation of the difference between free software and open source."));
    q.push(("Richard M. Stallman", "For personal reasons, I do not browse the web from my computer. (I also have no net connection much of the time.) To look at page I send mail to a daemon which runs wget and mails the page back to me. It is very efficient use of my time, but it is slow in real time."));
    q.push(("Richard M. Stallman", "Corporations don't have to be decent. Real persons, if they do something that's lawful but nasty you'll say 'you are a jerk, you are acting like a jerk, stop it!'. But we are not supposed to ever say that to these phony people. We are supposed to say 'oh well, it's lawful so we'll just have to suffer it'."));
    q.push(("Richard M. Stallman", "Nobody deserves to have to die — not Jobs, not Mr. Bill, not even people guilty of bigger evils than theirs. But we all deserve the end of Jobs' malign influence on people's computing."));
    q.push(("Richard M. Stallman", "It doesn't take special talents to reproduce — even plants can do it. On the other hand, contributing to a program like Emacs takes real skill. That is really something to be proud of. It helps more people, too."));
    q.push(("Richard M. Stallman", "I am a pessimist by nature. Many people can only keep on fighting when they expect to win. I'm not like that, I always expect to lose. I fight anyway, and sometimes I win."));
    q.push(("Richard M. Stallman", "Fighting patents one by one will never eliminate the danger of software patents, any more than swatting mosquitoes will eliminate malaria."));
    q.push(("Richard M. Stallman", "Free software permits students to learn how software works. Some students, on reaching their teens, want to learn everything there is to know about their computer and its software. They are intensely curious to read the source code of the programs that they use every day. To learn to write good code, students need to read lots of code and write lots of code. They need to read and understand real programs that people really use. Only free software permits this. Proprietary software rejects their thirst for knowledge: it says, “The knowledge you want is a secret — learning is forbidden!” Free software encourages everyone to learn. The free software community rejects the “priesthood of technology”, which keeps the general public in ignorance of how technology works; we encourage students of any age and situation to read the source code and learn as much as they want to know. Schools that use free software will enable gifted programming students to advance."));
    q.push(("Richard M. Stallman", "It is hard to write a simple definition of something as varied as hacking, but I think what these activities have in common is playfulness, cleverness, and exploration. Thus, hacking means exploring the limits of what is possible, in a spirit of playful cleverness. Activities that display playful cleverness have 'hack value'."));
    q.push(("Richard M. Stallman", "People sometimes ask me if it is a sin in the Church of Emacs to use vi. Using a free version of vi is not a sin; it is a penance. So happy hacking."));
    q.push(("Richard M. Stallman", "I could have made money this way, and perhaps amused myself writing code. But I knew that at the end of my career, I would look back on years of building walls to divide people, and feel I had spent my life making the world a worse place."));
    q.push(("Richard M. Stallman", "Stallman's Law (2012): While corporations dominate society and write the laws, each advance in technology is an opening for them to further restrict its users."));
    q.push(("Richard M. Stallman", "I did write some code in Java once, but that was the island in Indonesia."));
    q.push(("Richard M. Stallman", "People have a tendancy to be very scared of terrorists and not so scared of cars. But cars are a much bigger danger. The US declares war on terrorism. The cars have been killing thousands of Americans and still we don’t have a global war on cars. People are bad judges of how important various dangers are."));
    q.push(("Ian Coldwater", "Look it up baby, you'll see my name on it."));
    q.push(("Jessie Frazelle", "Building stuff wouldn't be fun if it wasn't hard."));
    q.push(("Julia Evans", "Asking good questions is a super important skill when writing software."));
    q.push(("Jane Silber", "Open source is important to our orgs as a talent pool; we need better representation of women."));
    q.push(("Margaret Heffernan", "Huge open source organizations like Red Hat and Mozilla manage the collaboration of hundreds of people who don't know one another and have spent no time hanging around the water cooler."));
    q.push(("Juan Veloz", "I based my entire career on collaboration- there is nothing better than succeeding with a team."));
    q.push(("Helen Keller", "Alone we can do so little; together we can do so much."));
    q.push(("Virgil Abloh", "I want to put culture on a track so that it becomes more inclusive, more open source."));
    q.push(("Lydia Whitmore", "Collaborating is actually one of the strongest things you can do – to open yourself and your ideas up to someone else’s perspective."));
    q.push(("Amit Ray", "Collaboration has no hierarchy. The Sun collaborates with soil to bring flowers on the earth."));
    q.push(("Louisa May Alcott", "It takes two flints to make a fire."));
    q.push(("Reid Hoffman", "No matter how brilliant your mind or strategy, if you're playing a solo game, you'll always lose out to a team."));
    q.push(("Gabe Newell", "Late is just for a little while. Suck is forever right? We could try to force this thing (half-life) out the door, but that's not the company we want to be. That's not the people we want to be."));
    q
}

impl Module for Hello {
    fn name(&self) -> (r: &'static str)
        ensures
            r@ == "hello"@,
    {
        "hello"
    }

    fn params(&self) -> (r: Vec<ModuleParam>)
        ensures
            r@.len() == 0,
    {
        Vec::new()
    }

    fn capabilities(&self) -> (c: ModuleCapabilities)
        ensures
            c.triggers is None,
            !c.catch_non_triggered,
            !c.catch_all,
            !c.send_message,
            !c.read_message,
            !c.resp_message,
    {
        ModuleCapabilities::default()
    }

    /// One variation: every seven days.
    fn variation_durations(&self) -> (r: Vec<u64>)
        ensures
            r@ == seq![604800u64],
    {
        let mut r: Vec<u64> = Vec::new();
        r.push(7 * 24 * 60 * 60);
        proof {
            assert(r@ =~= seq![604800u64]);
        }
        r
    }

    fn module_offering(&mut self, modules: &Vec<ModuleInfo>)
        ensures
            *final(self) == *old(self),
    {
    }

    /// Nothing on the very first turn; afterwards exactly one quote, chosen
    /// at random, rendered as "quote - author" with an em dash.
    fn run(&mut self, variation: usize) -> (r: Option<Vec<Message>>)
        ensures
            !old(self).has_skipped_first_time ==> r is None && final(self).has_skipped_first_time,
            old(self).has_skipped_first_time ==> *final(self) == *old(self) && (r matches Some(v)
                && v@.len() == 1),
    {
        if !self.has_skipped_first_time {
            self.has_skipped_first_time = true;
            return None;
        }
        let quotes = all_quotes();
        let pick = rand_range(0, quotes.len() as u64);
        let (author, quote) = quotes[pick as usize];
        let mut message = String::from_str(quote);
        message.append(" \u{2014} ");
        message.append(author);
        let mut v: Vec<String> = Vec::new();
        v.push(message);
        Some(v)
    }

    fn trigger(&mut self, message: &str) -> (r: TriggerOutcome)
        ensures
            r is Ignored,
    {
        TriggerOutcome::Ignored
    }
}

} // verus!
