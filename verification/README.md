# buddy

Combat-event logic of the Buddy arcdps plugin, verified with Verus.

- `src/evtc.rs`: agents and combat events as arcdps hands them over, with the
  agent kind and profession read from their raw fields.
- `src/player.rs`: tracked players and the names shown for agents.
- `src/buddy.rs`: the tracked squad players and the classification of each combat
  callback into the record it leads to (fight start and end, casts, buff
  applications and removals, strikes and breakbar hits).
- `src/cast.rs`: casts (start, skill, state, duration, hits), kept in start-time order.
- `src/fight.rs`: the fight history and what is recorded during a fight: cast
  starts and ends, damage hits counted toward casts, boon applications and
  breakbar hits.
- `src/settings.rs`: the status line of the custom skill data and the values
  stored from settings inputs.
- `app/`: the arcdps plugin glue, which converts arcdps' raw events and agents
  into the library's values and reports the decisions.
